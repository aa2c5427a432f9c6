//! The core of a visual regression testing service.
//!
//! A build brings screenshots, or a built Storybook whose stories are rendered
//! here. This library holds the rules and decisions of that service: how a
//! story is driven through a headless browser until it can be captured, what
//! the answers of the page mean, which entries of an uploaded zip may be
//! unpacked and where, how pictures are validated and stored, how objects are
//! uploaded and moved, and who may do what in a tenant.
//!
//! Work that reaches outside (the browser, the file system, the object store,
//! the database) is not done here. Where such work alternates with decisions,
//! the decisions are a state machine: it says what is to be done, whoever
//! drives it does so and hands back what came of it.
//!
//! Contracts speak of mathematical views: a string is the sequence of its
//! characters, a vector the sequence of its elements, an error the enumeration
//! of its cases. Public proof functions whose names begin with `law` state what
//! holds across functions.
pub mod error;
pub mod ids;
pub mod intake;
pub mod json;
pub mod order;
pub mod os_path;
pub mod paths;
pub mod render;
pub mod screenshots;
pub mod span;
pub mod storage;
pub mod tenants;
pub mod text;
pub mod transfer;
pub mod users;
