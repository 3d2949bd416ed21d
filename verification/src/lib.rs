//! Control plane of a terminal multiplexer: the sessions, windows and panes that it
//! keeps, the clients that look at them and hold leases on them, the ordered history
//! of what changed, mail between agents, and the protocol in which clients ask.
//!
//! The crate decides and the host acts. A handler works on the whole state,
//! [`plane::ControlPlane`]; where it needs something that only the host can do, such
//! as laying out panes, starting a child or storing a letter, it hands back an
//! [`state::Ask`] and is called again with the answer. Its contract is an equation
//! with a spec function of the same name on [`plane::PlaneView`], the state taken by
//! view. What holds of every request is in [`laws`].
pub mod alias;
pub mod attention;
pub mod conn;
pub mod discovery;
pub mod dispatch;
pub mod doorbell;
pub mod error;
pub mod event;
pub mod frame;
pub mod hive;
pub mod idmap;
pub mod labels;
pub mod laws;
pub mod leases;
pub mod ledger;
pub mod mailbox;
pub mod model;
pub mod moves;
pub mod order;
pub mod pane_write;
pub mod panes;
pub mod paths;
pub mod persist;
pub mod place;
pub mod plane;
pub mod request;
pub mod response;
pub mod roster;
pub mod server;
pub mod sessions;
pub mod setup;
pub mod sizes;
pub mod snapshot;
pub mod state;
pub mod step;
pub mod style;
pub mod subscribe;
pub mod teardown;
pub mod text;
pub mod topology;
pub mod wire;
pub mod writes;
