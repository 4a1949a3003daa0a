use vstd::prelude::*;
use crate::model::DeviceModel;
use crate::table::SymbolTable;
use crate::value::Value;

verus! {

/// A device: a type name and the parameters that were stored on it.
pub struct DeviceType {
    name: String,
    parameters: SymbolTable<Value>,
}

impl View for DeviceType {
    type V = DeviceModel;

    closed spec fn view(&self) -> DeviceModel {
        DeviceModel { name: self.name@, parameters: self.parameters@ }
    }
}

impl DeviceType {
    /// The parameter table is in order.
    pub closed spec fn wf(&self) -> bool {
        self.parameters.wf()
    }

    /// A device of the given type name on which nothing was stored yet.
    pub fn new(name: &str) -> (r: Self)
        ensures
            r.wf(),
            r@ == (DeviceModel { name: name@, parameters: Map::empty() }),
    {
        DeviceType { name: name.to_owned(), parameters: SymbolTable::new() }
    }

    /// The value of parameter `p`, `0.0` where none was stored.
    pub fn get_param(&self, p: &str) -> (r: Value)
        requires
            self.wf(),
        ensures
            r == self@.param(p@),
    {
        match self.parameters.get(p) {
            Some(v) => v,
            None => Value::zero(),
        }
    }

    /// Stores `v` as parameter `p`.
    pub fn set_param(&mut self, p: &str, v: Value)
        requires
            old(self).wf(),
        ensures
            final(self).wf(),
            final(self)@ == old(self)@.with_param(p@, v),
    {
        self.parameters.insert(p, v);
    }
}

/// What a device slot holds.
pub enum Device {
    Unset,
    Installed(DeviceType),
}

impl View for Device {
    type V = Option<DeviceModel>;

    open spec fn view(&self) -> Option<DeviceModel> {
        match self {
            Device::Unset => None,
            Device::Installed(d) => Some(d@),
        }
    }
}

impl Device {
    /// The device in the slot, if there is one, is in order.
    pub open spec fn wf(&self) -> bool {
        match self {
            Device::Unset => true,
            Device::Installed(d) => d.wf(),
        }
    }
}

} // verus!
