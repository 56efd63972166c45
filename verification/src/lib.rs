//! Routing and template-resolution engine of an HTTP mock server.
//!
//! A route pattern such as `/users/{id:number}` is parsed into segments, the
//! segments are stored in a tree for each method, and a request path is
//! matched against the tree while typed variables are captured. The body of
//! the matched response is a value tree whose strings may hold the
//! placeholders `$name`, `${fake.attr}` and `${ref.name}`, which are resolved
//! against the captured variables, generated values and named templates.
//!
//! Every type has a view: the same value with its strings as sequences of
//! characters and its vectors as sequences. The contracts of the functions
//! are stated over the views.
pub mod error;
pub mod name_map;
pub mod server;
pub mod specs;
pub mod text;
