//! ES2022: class static blocks and class properties.

use vstd::prelude::*;


verus! {

/// Options of the class properties transform when configured from the
/// ES2022 options; it has none yet.
#[derive(Clone, Copy, Debug)]
pub struct ClassPropertiesOptions {}

impl Default for ClassPropertiesOptions {
    fn default() -> (o: Self) {
        ClassPropertiesOptions {}
    }
}

/// Which ES2022 features are transformed.
#[derive(Clone, Copy, Debug)]
pub struct ES2022Options {
    pub class_static_block: bool,
    pub class_properties: Option<ClassPropertiesOptions>,
    pub top_level_await: bool,
}

impl Default for ES2022Options {
    fn default() -> (o: Self)
        ensures
            !o.class_static_block && o.class_properties is None && !o.top_level_await,
    {
        ES2022Options { class_static_block: false, class_properties: None, top_level_await: false }
    }
}

} // verus!
