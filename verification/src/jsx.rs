//! JSX options and the messages of the JSX transforms.

use vstd::prelude::*;

use crate::context::TransformCtx;
use crate::text::string_of;

verus! {

/// Options of the React Fast Refresh transform.
#[derive(Clone, Copy, Debug)]
pub struct ReactRefreshOptions {
    pub emit_full_signatures: bool,
}

impl Default for ReactRefreshOptions {
    fn default() -> (o: Self)
        ensures
            !o.emit_full_signatures,
    {
        ReactRefreshOptions { emit_full_signatures: false }
    }
}

/// Which JSX transforms run.
#[derive(Clone, Copy, Debug)]
pub struct JsxOptions {
    pub development: bool,
    pub jsx_plugin: bool,
    pub display_name_plugin: bool,
    pub jsx_self_plugin: bool,
    pub jsx_source_plugin: bool,
    pub pure: bool,
    pub refresh: Option<ReactRefreshOptions>,
}

impl Default for JsxOptions {
    fn default() -> (o: Self)
        ensures
            !o.development && !o.jsx_plugin && !o.display_name_plugin && !o.jsx_self_plugin
                && !o.jsx_source_plugin && !o.pure && o.refresh is None,
    {
        JsxOptions {
            development: false,
            jsx_plugin: false,
            display_name_plugin: false,
            jsx_self_plugin: false,
            jsx_source_plugin: false,
            pure: false,
            refresh: None,
        }
    }
}

/// How JSX is compiled: to `React.createElement` calls, or to imports of
/// the automatic runtime.
#[derive(Clone, Copy, Debug, PartialEq, Eq, Structural)]
pub enum JsxRuntime {
    Classic,
    Automatic,
}

impl Default for JsxRuntime {
    fn default() -> (r: Self)
        ensures
            r == JsxRuntime::Classic,
    {
        JsxRuntime::Classic
    }
}

/// The React Fast Refresh transform, which keeps no state of its own yet.
pub struct ReactRefresh {}

impl ReactRefresh {
    pub fn new(_options: &ReactRefreshOptions, _ctx: &TransformCtx) -> (r: Self) {
        ReactRefresh {}
    }
}

pub fn pragma_and_pragma_frag_cannot_be_set() -> (s: String)
    ensures
        s@ == "pragma and pragmaFrag cannot be set when runtime is automatic. Remove `pragma` and `pragmaFrag` options."@,
{
    string_of("pragma and pragmaFrag cannot be set when runtime is automatic. Remove `pragma` and `pragmaFrag` options.")
}

pub fn invalid_pragma() -> (s: String)
    ensures
        s@ == "pragma and pragmaFrag must be of the form `foo` or `foo.bar`. Fix `pragma` and `pragmaFrag` options."@,
{
    string_of("pragma and pragmaFrag must be of the form `foo` or `foo.bar`. Fix `pragma` and `pragmaFrag` options.")
}

pub fn import_source_cannot_be_set() -> (s: String)
    ensures
        s@ == "importSource cannot be set when runtime is classic. Remove `importSource` option."@,
{
    string_of("importSource cannot be set when runtime is classic. Remove `importSource` option.")
}

pub fn invalid_import_source() -> (s: String)
    ensures
        s@ == "importSource cannot be an empty string or longer than u32::MAX bytes. Fix `importSource` option."@,
{
    string_of("importSource cannot be an empty string or longer than u32::MAX bytes. Fix `importSource` option.")
}

pub fn namespace_does_not_support() -> (s: String)
    ensures
        s@ == "Namespace tags are not supported by default. React's JSX doesn't support namespace tags. You can set `throwIfNamespace: false` to bypass this warning."@,
{
    string_of("Namespace tags are not supported by default. React's JSX doesn't support namespace tags. You can set `throwIfNamespace: false` to bypass this warning.")
}

pub fn valueless_key() -> (s: String)
    ensures
        s@ == "Please provide an explicit key value. Using \"key\" as a shorthand for \"key={true}\" is not allowed."@,
{
    string_of("Please provide an explicit key value. Using \"key\" as a shorthand for \"key={true}\" is not allowed.")
}

} // verus!
