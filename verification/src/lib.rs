//! Searching sorted data and monotonic predicates: binary and exponential
//! search over ordered slices, a boundary search over a numeric range, and
//! two clients of the latter, the integer square root and the widest spacing
//! of points chosen from closed integer intervals.

pub mod domain;
pub mod domain_signed;
pub mod domain_unsigned;
pub mod greedy;
pub mod intervals;
pub mod isqrt;
pub mod order;
pub mod range_search;
pub mod sorted_search;
pub mod spacing;

pub use domain::SearchDomain;
pub use isqrt::sqrt;
pub use range_search::binary_search_range;
pub use sorted_search::{binary_search, exponential_search};
pub use spacing::select_intervals;
