//! Classical bits and registers, used by measurement wiring downstream of
//! the engine.

use vstd::prelude::*;

verus! {

/// One named classical bit.
pub struct ClassicalBit {
    pub state: bool,
    pub name: String,
}

impl Clone for ClassicalBit {
    /// A clone carries the same name and state.
    fn clone(&self) -> (r: Self)
        ensures
            r.name@ == self.name@,
            r.state == self.state,
    {
        ClassicalBit { state: self.state, name: self.name.clone() }
    }
}

impl ClassicalBit {
    /// Build a bit from its name and state.
    pub fn new(name: &str, state: bool) -> (r: ClassicalBit)
        ensures
            r.name@ == name@,
            r.state == state,
    {
        ClassicalBit { state, name: name.to_owned() }
    }

    /// The bit's name.
    pub fn get_name(&self) -> (r: &String)
        ensures
            r@ == self.name@,
    {
        &self.name
    }

    /// The bit's state.
    pub fn get_state(&self) -> (r: bool)
        ensures
            r == self.state,
    {
        self.state
    }
}

/// A named register of classical bits.
pub struct ClassicalRegister {
    pub bits: Vec<ClassicalBit>,
    pub name: String,
}

impl ClassicalRegister {
    /// A register of cleared bits, one per name.
    pub fn new(name: &str, names: &Vec<String>) -> (r: ClassicalRegister)
        ensures
            r.name@ == name@,
            r.bits@.len() == names@.len(),
            forall|i: int|
                0 <= i < names@.len() ==> (#[trigger] r.bits@[i]).name@ == names@[i]@
                    && !r.bits@[i].state,
    {
        let mut bits: Vec<ClassicalBit> = Vec::new();
        let mut i: usize = 0;
        while i < names.len()
            invariant
                i <= names@.len(),
                bits@.len() == i,
                forall|k: int|
                    0 <= k < i ==> (#[trigger] bits@[k]).name@ == names@[k]@ && !bits@[k].state,
            decreases names@.len() - i,
        {
            bits.push(ClassicalBit::new(names[i].as_str(), false));
            i += 1;
        }
        ClassicalRegister { bits, name: name.to_owned() }
    }

    /// Replace the whole bit list.
    pub fn set_bits(&mut self, bits: Vec<ClassicalBit>)
        ensures
            final(self).bits@ == bits@,
            final(self).name@ == old(self).name@,
    {
        self.bits = bits;
    }

    /// The bits, as a fresh list.
    pub fn get_bits(&self) -> (r: Vec<ClassicalBit>)
        ensures
            r@.len() == self.bits@.len(),
            forall|i: int|
                0 <= i < self.bits@.len() ==> (#[trigger] r@[i]).name@ == self.bits@[i].name@
                    && r@[i].state == self.bits@[i].state,
    {
        let mut out: Vec<ClassicalBit> = Vec::new();
        let mut i: usize = 0;
        while i < self.bits.len()
            invariant
                i <= self.bits@.len(),
                out@.len() == i,
                forall|k: int|
                    0 <= k < i ==> (#[trigger] out@[k]).name@ == self.bits@[k].name@
                        && out@[k].state == self.bits@[k].state,
            decreases self.bits@.len() - i,
        {
            out.push(self.bits[i].clone());
            i += 1;
        }
        out
    }

    /// The register's name.
    pub fn get_name(&self) -> (r: &String)
        ensures
            r@ == self.name@,
    {
        &self.name
    }
}

} // verus!
