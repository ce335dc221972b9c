//! Modules, identifiers, symbols, and the table of their names.

use vstd::prelude::*;

verus! {

/// The identifier of a module: its index in the table of module names.
#[derive(Clone, Copy, Debug, PartialEq, Eq, Structural)]
pub struct ModuleId(pub u32);

/// The identifier of a name within a module: its index in that module's
/// table of names.
#[derive(Clone, Copy, Debug, PartialEq, Eq, Structural)]
pub struct IdentId(pub u32);

/// A name defined in some module.
#[derive(Clone, Copy, Debug, PartialEq, Eq, Structural)]
pub struct Symbol {
    pub module: ModuleId,
    pub ident: IdentId,
}

impl Symbol {
    /// The symbol of identifier `ident` of module `module`.
    pub fn new(module: ModuleId, ident: IdentId) -> (s: Symbol)
        ensures
            s.module == module,
            s.ident == ident,
    {
        Symbol { module, ident }
    }

    /// The module in which the symbol is defined.
    pub fn module_id(&self) -> (m: ModuleId)
        ensures
            m == self.module,
    {
        self.module
    }

    /// The symbol's own name, without its module.
    pub fn ident_string<'a>(&self, interns: &'a Interns) -> (s: &'a str)
        requires
            interns.has_ident(*self),
        ensures
            s@ == interns.ident_name(*self),
    {
        interns.ident_names[self.module.0 as usize][self.ident.0 as usize].as_str()
    }

    /// The name of the module in which the symbol is defined.
    pub fn module_string<'a>(&self, interns: &'a Interns) -> (s: &'a str)
        requires
            interns.has_module(self.module),
        ensures
            s@ == interns.module_name_of(self.module),
    {
        interns.module_name(self.module)
    }
}

/// The names behind module and identifier ids: `module_names[m]` names
/// module `m`, and `ident_names[m][i]` names identifier `i` of module `m`.
pub struct Interns {
    pub module_names: Vec<String>,
    pub ident_names: Vec<Vec<String>>,
}

impl Interns {
    /// The table names module `m`.
    pub open spec fn has_module(&self, m: ModuleId) -> bool {
        (m.0 as int) < self.module_names@.len()
    }

    /// The name of module `m`.
    pub open spec fn module_name_of(&self, m: ModuleId) -> Seq<char> {
        self.module_names@[m.0 as int]@
    }

    /// The table names the symbol.
    pub open spec fn has_ident(&self, s: Symbol) -> bool {
        &&& (s.module.0 as int) < self.ident_names@.len()
        &&& (s.ident.0 as int) < self.ident_names@[s.module.0 as int]@.len()
    }

    /// The name of the symbol within its module.
    pub open spec fn ident_name(&self, s: Symbol) -> Seq<char> {
        self.ident_names@[s.module.0 as int]@[s.ident.0 as int]@
    }

    /// The name of a module.
    pub fn module_name(&self, m: ModuleId) -> (s: &str)
        requires
            self.has_module(m),
        ensures
            s@ == self.module_name_of(m),
    {
        self.module_names[m.0 as usize].as_str()
    }
}

} // verus!
