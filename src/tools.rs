pub mod dispatch;
pub mod page_content;
