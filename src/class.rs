use crate::format::ClassModel;
use crate::types::{Attribute, ConstPool, Field};
use vstd::prelude::*;

verus! {

/// A loaded class. Only the value slots of its fields change once it is loaded.
#[derive(Debug)]
pub struct Class {
    pub cp: ConstPool,
    pub name: String,
    /// Empty when the class has no superclass.
    pub supr: String,
    pub flags: u16,
    pub interfaces: Vec<String>,
    pub fields: Vec<Field>,
    pub methods: Vec<Field>,
    pub attributes: Vec<Attribute>,
    /// Minor and major version.
    pub version: (u16, u16),
}

impl View for Class {
    type V = ClassModel;

    open spec fn view(&self) -> ClassModel {
        ClassModel {
            version: self.version,
            cp: self.cp@,
            flags: self.flags,
            name: self.name@,
            supr: self.supr@,
            interfaces: self.interfaces@.map_values(|s: String| s@),
            fields: self.fields@.map_values(|f: Field| f@),
            methods: self.methods@.map_values(|f: Field| f@),
            attributes: self.attributes@.map_values(|a: Attribute| a@),
        }
    }
}

impl Class {
    /// No field or method holds a value yet, as after parsing.
    pub open spec fn fresh(&self) -> bool {
        &&& forall|i: int| 0 <= i < self.fields@.len() ==> self.fields@[i].value is None
        &&& forall|i: int| 0 <= i < self.methods@.len() ==> self.methods@[i].value is None
    }
}

} // verus!
