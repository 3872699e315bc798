//! A typed grammar over synthesizer patch terms: the categorical palette and
//! the term tree itself, the structural edit vocabulary that rewires it, the
//! canonical trace encoding whose addresses name every choice in it, and the
//! views built on those addresses — knob edits, trace diffs, domain repair
//! and the rack description a front end draws.

pub mod describe;
pub mod diff;
pub mod domain;
pub mod edit;
pub mod labels;
pub mod encoding;
pub mod genome;
pub mod mutate;
pub mod presets;
pub mod repair;
pub mod sexpr;
pub mod term;
pub mod text;
pub mod trace;
pub mod turning;
pub mod wiring;

pub use describe::{describe, RackDescription};
pub use diff::{display_label, tree_diff, DiffEntry};
pub use edit::{set_param, split_addr, EditError, ParamValue};
pub use encoding::TraceError;
pub use mutate::{apply_struct_op, validate_tree, ModKind, NodeKind, StructError, StructOp};
pub use presets::{preset_bank, presets, Preset};
pub use term::{AmpEnv, AudioNode, ModNode, Param, PatchTree};
pub use trace::{SiteTrace, SiteValue};
