pub mod state_machine;
pub mod utils;

pub use state_machine::common::Message;
pub use state_machine::receiver::Receiver;
pub use state_machine::sender::Sender;
