//! A native bridge to a handle-addressed scripting host: arguments are
//! lowered to integer slots, host objects are named by small integer
//! handles, and host events are delivered back to registered closures.
pub mod call;
pub mod classes;
pub mod encode;
pub mod host;
pub mod node;
pub mod registry;
pub mod runloop;
pub mod session;
pub mod storage;
pub mod store;

pub use classes::class_names;
pub use call::{plain_call, ForeignCall, Snippet, SENTINEL};
pub use encode::{Arg, ArgView, Arena, EncodeError, Slot};
pub use host::{HostModel, Invocation, ListenerView};
pub use node::{Event, HtmlNode, JSRef};
pub use registry::Registry;
pub use runloop::{syscall, LoopAction, LoopEvent, RunLoop, PROBE_CODE, PROBE_REPLY};
pub use session::{init, Document, ListenTarget};
pub use storage::{alert, optional_text, LocalStorageInterface, LocalStorageIterator};
pub use store::KeyValueStore;
