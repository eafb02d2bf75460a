use vstd::prelude::*;
use crate::text::opt_view;

verus! {

/// An enumeration and its values.
#[derive(Clone)]
pub struct ScarEnum {
    pub name: String,
    pub values: Vec<ScarEnumValue>,
}

/// One value of an enumeration.
#[derive(Clone)]
pub struct ScarEnumValue {
    pub name: String,
    pub value: Option<String>,
}

pub struct EnumValueView {
    pub name: Seq<char>,
    pub value: Option<Seq<char>>,
}

pub struct EnumView {
    pub name: Seq<char>,
    pub values: Seq<EnumValueView>,
}

impl View for ScarEnumValue {
    type V = EnumValueView;

    open spec fn view(&self) -> EnumValueView {
        EnumValueView { name: self.name@, value: opt_view(self.value) }
    }
}

pub open spec fn enum_values_view(v: Seq<ScarEnumValue>) -> Seq<EnumValueView> {
    v.map_values(|e: ScarEnumValue| e@)
}

impl View for ScarEnum {
    type V = EnumView;

    open spec fn view(&self) -> EnumView {
        EnumView { name: self.name@, values: enum_values_view(self.values@) }
    }
}

pub open spec fn enums_view(v: Seq<ScarEnum>) -> Seq<EnumView> {
    v.map_values(|e: ScarEnum| e@)
}

} // verus!
