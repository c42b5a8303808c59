//! Reading the interface of an Android device and acting on it.
//!
//! The library turns a dump of the interface hierarchy into a tree of
//! elements (`markup`, `element`, `bounds`), finds elements in the tree
//! (`search`), chooses what to tap (`decide`) and runs scripts of steps that
//! read the screen, tap, type and wait (`workflow`, `script`, `plan`,
//! `batch`). The scripts of the flows that it knows are in `flows`,
//! `import_flows` and `vcf_flows`. It never talks to a device itself: it says
//! what to do next and is told what came of it.
//!
//! Text is compared in one of two ways, and every search and every step says
//! which. A search of the tree by text, by description or by identifier, a
//! look for a word anywhere in a dump, and a step that taps by a label
//! compare as written, upper and lower case kept apart. The flow that finds
//! an element by a text and taps it, and the check that a page shows a text,
//! take upper and lower case as one (`decide::Field::Folded`).
//!
//! Beside that it reads and writes contacts (`contact`, `vcf_import`,
//! `vcf_import_fixed`, `utils`), reads what the bridge tool reports
//! (`device`), keeps tasks (`registry`) and holds the records that the client
//! and the server exchange (`models`, `backend`).

pub mod actions;
pub mod backend;
pub mod batch;
pub mod bounds;
pub mod client;
pub mod contact;
pub mod decide;
pub mod device;
pub mod element;
pub mod error;
pub mod flows;
pub mod import_flows;
pub mod inspect;
pub mod markup;
pub mod models;
pub mod number;
pub mod plan;
pub mod registry;
pub mod script;
pub mod search;
pub mod text;
pub mod utils;
pub mod vcf_flows;
pub mod vcf_import;
pub mod vcf_import_fixed;
pub mod workflow;

pub use bounds::Bounds;
pub use client::AdbClient;
pub use contact::Contact;
pub use element::UIElement;
pub use vcf_import::VcfImporter;
