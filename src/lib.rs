//! Batch synchronisation of chosen example sentences into a flashcard
//! application's note store.
//!
//! - `resolve` ties an expression to the remote note that holds it, by
//!   comparing the plain text of the note's field (`ruby`) with it.
//! - `payload` builds the update request of each resolved sentence.
//! - `dispatch` classifies the remote store's answers.
//! - `batch` turns a batch of sentences and their resolutions into the
//!   requests to send and the summary to report.
//! - `wordlist` rewrites the word list and the expression list afterwards.
//! - `pending`, `selection`, `input`, `query` and `sources` hold the rules of
//!   the front end around it: the pending list, list navigation, the search
//!   box, and the sentences that the search providers give.
pub mod text;
pub mod ruby;
pub mod model;
pub mod resolve;
pub mod payload;
pub mod dispatch;
pub mod batch;
pub mod wordlist;
pub mod selection;
pub mod pending;
pub mod input;
pub mod sources;
pub mod query;
