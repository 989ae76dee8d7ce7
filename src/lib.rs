//! A playback engine for parsed visual-novel scripts: the script model, the
//! traversal that finds the next instruction across label bodies, the step
//! machine that dispatches side effects and pauses on dialogue, and the
//! injection of new instructions into a live script.

pub mod engine;
pub mod inject;
pub mod laws;
pub mod lookup;
pub mod parsed;
pub mod script;
pub mod settings;
pub mod text_checks;

pub use engine::{
    Advance, CachedImage, Dispatch, Effect, ImageSource, NovelData, NovelError, Phase, Traversal,
};
pub use lookup::{find_element_with_index, holds_no_error, list_ast_indices};
pub use parsed::{instruction_from_ast, load_script, script_from_ast};
pub use script::{AudioMode, Instruction};
pub use settings::{handle_press_key, NovelSettings};
