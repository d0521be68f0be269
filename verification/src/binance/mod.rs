pub mod api;
pub mod historical;
pub mod trade_book;
pub mod websocket;
