//! A verified core of the reactor pattern: a single control loop pulls events
//! from a demultiplexer and dispatches each one to the handler registered
//! under the event's key, until the demultiplexer is exhausted.

pub mod demux;
pub mod events;
pub mod handlers;
pub mod observer;
pub mod reactor;
pub mod registry;

pub use demux::Demultiplexer;
pub use events::Event;
pub use events::EventDemultiplexer;
pub use events::EventHandler;
pub use handlers::CountingHandler;
pub use reactor::ConcreteReactor;
pub use reactor::register_handlers;
pub use registry::Registry;
