use vstd::prelude::*;

verus! {

/// Host settings of the playback engine.
pub struct NovelSettings {
    /// The directory that image and audio files are resolved under.
    pub assets_path: String,
    /// While set, the advance key is ignored.
    pub pause_handle_switch_node: bool,
}

impl Default for NovelSettings {
    fn default() -> (r: NovelSettings)
        ensures
            r.assets_path@ == Seq::<char>::empty(),
            !r.pause_handle_switch_node,
    {
        NovelSettings { assets_path: String::new(), pause_handle_switch_node: false }
    }
}

/// Whether a press of the advance key is an external advance signal: it is,
/// unless the settings pause key handling.
pub fn handle_press_key(settings: &NovelSettings, advance_pressed: bool) -> (r: bool)
    ensures
        r == (advance_pressed && !settings.pause_handle_switch_node),
{
    if settings.pause_handle_switch_node {
        return false;
    }
    advance_pressed
}

} // verus!
