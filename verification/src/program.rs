use vstd::prelude::*;
use crate::felt::Felt;
use crate::identifier::{
    IdDefV, IdentifierDefinition, IdentifierError, IdentifierManager, spec_search,
};
use crate::scoped_name::ScopedName;

verus! {

/// A hint attached to a program location: source text to be run by an
/// embedding runtime before the instruction at that location.
#[derive(Debug)]
pub struct CairoHint {
    pub code: String,
    pub accessible_scopes: Vec<ScopedName>,
    pub flow_tracking_data: FlowTrackingDataActual,
}

#[derive(Debug)]
pub struct FlowTrackingDataActual {}

impl CairoHint {
    /// A copy of the hint.
    pub fn clone_hint(&self) -> (r: Self)
        ensures
            r.code@ == self.code@,
            r.accessible_scopes@.len() == self.accessible_scopes@.len(),
    {
        let mut scopes: Vec<crate::scoped_name::ScopedName> = Vec::new();
        let n = self.accessible_scopes.len();
        let mut i: usize = 0;
        while i < n
            invariant
                n == self.accessible_scopes@.len(),
                i <= n,
                scopes@.len() == i,
            decreases n - i,
        {
            scopes.push(self.accessible_scopes[i].clone());
            i = i + 1;
        }
        CairoHint {
            code: self.code.clone(),
            accessible_scopes: scopes,
            flow_tracking_data: FlowTrackingDataActual {  },
        }
    }
}

/// A reference to a memory address defined for a specific program
/// location.
#[derive(Debug)]
pub struct Reference {}

#[derive(Debug)]
pub struct ReferenceManager {
    pub references: Vec<Reference>,
}

/// A named source attribute.
#[derive(Debug)]
pub struct AttributeBase {
    pub name: String,
    pub value: String,
}

/// A named source attribute covering a range of program locations.
#[derive(Debug)]
pub struct AttributeScope {
    pub name: String,
    pub value: String,
    pub start_pc: u64,
    pub end_pc: u64,
    pub flow_tracking_data: Option<FlowTrackingDataActual>,
    pub accessible_scopes: Vec<ScopedName>,
}

#[derive(Debug)]
pub struct DebugInfo {}

/// Minimal program information, stripped of hints and identifiers; the
/// absence of hints matters for verifying execution.
#[derive(Debug)]
pub struct StrippedProgram {
    pub prime: Felt,
    pub data: Vec<Felt>,
    pub builtins: Vec<String>,
    /// The entry location, when the program has one.
    pub main: Option<u64>,
}

/// A full compiled program.
#[derive(Debug)]
pub struct FullProgram {
    pub prime: Felt,
    pub data: Vec<Felt>,
    pub hints: Vec<(u64, Vec<CairoHint>)>,
    pub builtins: Vec<String>,
    pub main_scope: ScopedName,
    pub identifiers: IdentifierManager,
    pub reference_manager: ReferenceManager,
    pub attributes: Vec<AttributeScope>,
    pub debug_info: Option<DebugInfo>,
}

/// A program in either form.
#[derive(Debug)]
pub enum Program {
    Stripped(StrippedProgram),
    Full(Box<FullProgram>),
}

/// The field elements of a program's data segment.
pub open spec fn data_view(d: Seq<Felt>) -> Seq<nat> {
    d.map_values(|f: Felt| f@)
}

impl Program {
    /// The prime the program's arithmetic is taken modulo.
    pub fn prime(&self) -> (r: &Felt)
        ensures
            r@ == self.spec_prime(),
    {
        match self {
            Program::Stripped(p) => &p.prime,
            Program::Full(p) => &p.prime,
        }
    }

    pub open spec fn spec_prime(&self) -> nat {
        match self {
            Program::Stripped(p) => p.prime@,
            Program::Full(p) => p.prime@,
        }
    }

    /// The program's encoded instructions and constants.
    pub fn data(&self) -> (r: &Vec<Felt>)
        ensures
            data_view(r@) == self.spec_data(),
    {
        match self {
            Program::Stripped(p) => &p.data,
            Program::Full(p) => &p.data,
        }
    }

    pub open spec fn spec_data(&self) -> Seq<nat> {
        match self {
            Program::Stripped(p) => data_view(p.data@),
            Program::Full(p) => data_view(p.data@),
        }
    }

    /// The builtins the program declares, in declaration order.
    pub fn builtins(&self) -> (r: &Vec<String>)
        ensures
            r@.map_values(|s: String| s@) == self.spec_builtins(),
    {
        match self {
            Program::Stripped(p) => &p.builtins,
            Program::Full(p) => &p.builtins,
        }
    }

    pub open spec fn spec_builtins(&self) -> Seq<Seq<char>> {
        match self {
            Program::Stripped(p) => p.builtins@.map_values(|s: String| s@),
            Program::Full(p) => p.builtins@.map_values(|s: String| s@),
        }
    }

    /// The program location of the entry point, when there is one.
    pub open spec fn spec_entry(&self) -> Option<u64> {
        match self {
            Program::Stripped(p) => p.main,
            Program::Full(p) => p.spec_main(),
        }
    }

    pub fn main(&self) -> (r: Option<u64>)
        ensures
            r == self.spec_entry(),
    {
        match self {
            Program::Stripped(p) => p.main,
            Program::Full(p) => p.main(),
        }
    }
}

/// The program location a found identifier marks, if it marks one.
pub open spec fn label_of(r: Result<crate::identifier::SearchV, crate::identifier::IdErrV>)
    -> Option<u64> {
    match r {
        Ok(v) => match v.definition {
            IdDefV::Label { pc } => Some(pc),
            IdDefV::Function { pc } => Some(pc),
            _ => None,
        },
        Err(_) => None,
    }
}

impl FullProgram {
    /// Finds an identifier's definition: by its full name, or searched
    /// under the program's main scope.
    pub fn get_identifier(&self, name: &ScopedName, full_name_lookup: bool) -> (r: Result<
        IdentifierDefinition,
        IdentifierError,
    >)
        requires
            name@.len() > 0,
        ensures
            ({
                let looked = if full_name_lookup {
                    crate::identifier::spec_resolve(
                        self.identifiers@,
                        name@,
                        self.identifiers.entries@.len(),
                    )
                } else {
                    spec_search(
                        self.identifiers@,
                        seq![self.main_scope@],
                        name@,
                        self.identifiers.entries@.len(),
                    )
                };
                match r {
                    Ok(d) => looked matches Ok(v) && v.definition == d@,
                    Err(e) => looked matches Err(f) && f == e@,
                }
            }),
    {
        let result = if full_name_lookup {
            self.identifiers.get(name)
        } else {
            let mut scopes: Vec<ScopedName> = Vec::new();
            scopes.push(self.main_scope.clone());
            proof {
                assert(scopes@.map_values(|s: ScopedName| s@) =~= seq![self.main_scope@]);
            }
            self.identifiers.search(&scopes, name)
        };
        match result {
            Ok(v) => Ok(v.identifier_definition),
            Err(e) => Err(e),
        }
    }

    /// The program location an identifier marks, if it can be found and
    /// marks one.
    pub fn get_label(&self, name: &ScopedName, full_name_lookup: bool) -> (r: Option<u64>)
        requires
            name@.len() > 0,
        ensures
            r == label_of(
                if full_name_lookup {
                    crate::identifier::spec_resolve(
                        self.identifiers@,
                        name@,
                        self.identifiers.entries@.len(),
                    )
                } else {
                    spec_search(
                        self.identifiers@,
                        seq![self.main_scope@],
                        name@,
                        self.identifiers.entries@.len(),
                    )
                },
            ),
    {
        match self.get_identifier(name, full_name_lookup) {
            Ok(IdentifierDefinition::Label { pc }) => Some(pc),
            Ok(IdentifierDefinition::Function { pc }) => Some(pc),
            Ok(_) => None,
            Err(_) => None,
        }
    }

    /// The location of the `main` label, searched under the main scope.
    pub open spec fn spec_main(&self) -> Option<u64> {
        label_of(
            spec_search(
                self.identifiers@,
                seq![self.main_scope@],
                seq!["main"@],
                self.identifiers.entries@.len(),
            ),
        )
    }

    pub fn main(&self) -> (r: Option<u64>)
        ensures
            r == self.spec_main(),
    {
        let mut path: Vec<String> = Vec::new();
        path.push(String::from_str("main"));
        let name = ScopedName { path };
        proof {
            assert(name@ =~= seq!["main"@]);
        }
        self.get_label(&name, false)
    }
}

} // verus!
