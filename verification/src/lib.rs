//! Request parameters for form-encoded bodies and query strings.
//!
//! A raw body or query string is decoded strictly into a [`QueryMap`], a
//! mapping from each parameter name to the values supplied for it, in the
//! order in which they were supplied.  [`require_parameter`] then yields the
//! first value of a name, or an error that names the missing parameter.
//! Every error of this crate stands for a bad request.

pub mod escape;
pub mod text;
pub mod pairs;
pub mod params;
pub mod error;
pub mod decode;
pub mod helpers;

pub use decode::decode;
pub use decode::decode_pairs;
pub use error::DecodeError;
pub use error::DecodeFailure;
pub use error::MissingParamError;
pub use error::ParamError;
pub use helpers::require_body_params;
pub use helpers::require_parameter;
pub use helpers::require_query_params;
pub use params::QueryMap;
