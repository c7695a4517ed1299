//! Frame matching by perceptual similarity.
//!
//! For each frame of an input set, the library finds the most similar frame
//! of a reference pool, scoring pairs with a structural-similarity metric
//! and picking the best-scoring pool frame under an explicit selection
//! policy. Decoding and scoring lean on the `image` and `image_compare`
//! crates; everything around those calls is verified: dimension checking,
//! skip-on-failure loading, best-match selection with a stable tie-break,
//! and the orchestration over whole sets.

pub mod decode;
pub mod frame;
pub mod score;
pub mod select;
pub mod pipeline;
