//! The configuration tree as the external parser hands it over.
//!
//! A [`ConfigItem`] is one directive: a key, the scalar values that stood on
//! the key's line, and the child directives of its block. The same key may
//! repeat among siblings; nothing here deduplicates.

use vstd::prelude::*;

verus! {

broadcast use vstd::seq::group_seq_axioms;

/// The numeric payload of a config scalar.
///
/// The daemon delivers numbers in a 64-bit binary floating-point format,
/// which verified code does not compute with. A number is therefore carried
/// as plain values: the raw encoding bits (passed through untouched for
/// callers that want the full-precision value back), and the value truncated
/// toward zero and saturated into the signed and unsigned 64-bit ranges,
/// which is all the integer coercions read. The boundary that receives a raw
/// number fills the three fields from one source value; a non-finite payload
/// truncates to zero by the saturating-cast convention.
#[derive(Debug, PartialEq, Eq, Structural, Clone, Copy)]
pub struct Number {
    /// The raw 64-bit encoding, carried through unread.
    pub bits: u64,
    /// The value truncated toward zero, saturated to `i64`'s range.
    pub signed: i64,
    /// The value truncated toward zero, saturated to `u64`'s range.
    pub unsigned: u64,
}

/// A parsed scalar from the config: a number, a boolean, or quoted text.
#[derive(Debug, PartialEq, Clone)]
pub enum ConfigValue {
    Number(Number),
    Boolean(bool),
    Text(String),
}

/// One directive of the parsed config: key, same-line scalar values, and
/// the directives nested in its block.
#[derive(Debug)]
pub struct ConfigItem {
    /// Key of the directive; not unique among siblings.
    pub key: String,
    /// Scalar values on the same line as the key.
    pub values: Vec<ConfigValue>,
    /// Nested directives.
    pub children: Vec<ConfigItem>,
}

/// Mathematical image of a [`ConfigValue`].
#[verifier::ext_equal]
pub enum ConfigValueView {
    Number(Number),
    Boolean(bool),
    Text(Seq<char>),
}

/// Mathematical image of a [`ConfigItem`].
#[verifier::ext_equal]
pub struct ConfigItemView {
    pub key: Seq<char>,
    pub values: Seq<ConfigValueView>,
    pub children: Seq<ConfigItemView>,
}

/// Mathematical image of one scalar.
pub open spec fn value_view(v: ConfigValue) -> ConfigValueView {
    match v {
        ConfigValue::Number(n) => ConfigValueView::Number(n),
        ConfigValue::Boolean(b) => ConfigValueView::Boolean(b),
        ConfigValue::Text(s) => ConfigValueView::Text(s@),
    }
}

/// Mathematical image of one directive, children included.
pub open spec fn item_view(it: ConfigItem) -> ConfigItemView
    decreases it,
{
    ConfigItemView {
        key: it.key@,
        values: it.values@.map_values(|v: ConfigValue| value_view(v)),
        children: items_view(it.children@),
    }
}

/// Mathematical image of a directive sequence, element by element. The
/// range guard keeps the recursion inside the sequence, where elements are
/// structurally smaller.
pub open spec fn items_view(s: Seq<ConfigItem>) -> Seq<ConfigItemView>
    decreases s,
{
    Seq::new(
        s.len(),
        |i: int|
            if 0 <= i < s.len() {
                item_view(s[i])
            } else {
                ConfigItemView { key: Seq::empty(), values: Seq::empty(), children: Seq::empty() }
            },
    )
}

impl View for ConfigValue {
    type V = ConfigValueView;

    open spec fn view(&self) -> ConfigValueView {
        value_view(*self)
    }
}

impl View for ConfigItem {
    type V = ConfigItemView;

    open spec fn view(&self) -> ConfigItemView {
        item_view(*self)
    }
}

} // verus!
