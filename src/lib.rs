//! A single-symbol price oracle: a bounded history of accepted prices with an
//! exponential-moving-average predictor, a node-local claim lock that throttles
//! workers, a JSON price extractor, and the admission rules for unsigned price
//! submissions.
pub mod coordinator;
pub mod extractor;
pub mod history;
pub mod pallet;
