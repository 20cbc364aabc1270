//! The wire protocol of an Argus market data server: packet framing, message
//! encoding, order book snapshots, request building and reply matching.

pub mod book_laws;
pub mod books;
pub mod display;
pub mod display_laws;
pub mod inbox;
pub mod json;
pub mod laws;
pub mod message;
pub mod message_laws;
pub mod numeric;
pub mod orderbook;
pub mod packet;
pub mod packet_laws;
pub mod place_order;
pub mod process;
pub mod ranking;
pub mod reader;
pub mod request;
pub mod request_laws;
pub mod text;
pub mod types;

pub use books::OrderBooks;
pub use inbox::SystemMessagesPushed;
pub use message::{InBoundMessage, OutBoundMessage};
pub use numeric::{
    deserialize_f64_from_string, deserialize_optional_f64_from_string, deserialize_u64_from_string,
};
pub use orderbook::{Order, OrderBook, Protocol2IR};
pub use packet::{ProtocolFns, ProtocolKind};
pub use place_order::PlaceOrder;
pub use reader::PacketReader;
pub use request::Request;
pub use types::{
    CLOBInfo, OrderCancelled, OrderPlacedMsg, OrderSide, OrderStatus, OrderType,
    PlaceMultipleOrdersResponse, SubscriptionResponse, TraderSide, UnsubscriptionResponse,
};
