//! Mirrors a remote, paginated catalog of chapters into a local
//! content-addressed archive tree: stable identity encoding, display-name
//! sanitization, existing-entry resolution, bounded-retry page fetching,
//! ordered archive assembly, and batch orchestration with per-item failure
//! isolation.

pub mod batch;
pub mod chapter;
pub mod closing;
pub mod codec;
pub mod errors;
pub mod fetch;
pub mod groups;
pub mod naming;
pub mod pagination;
pub mod pipeline;
pub mod resolver;
pub mod sanitize;
pub mod text;
