use vstd::prelude::*;
use crate::assoc::{assoc_map, lemma_assoc_contains, lemma_assoc_push, lemma_assoc_value};
use crate::scoped_name::ScopedName;

verus! {

/// The definition an identifier stands for.
#[derive(Debug)]
pub enum IdentifierDefinition {
    /// An identifier that will be defined later in the code.
    Future,
    Alias { destination: ScopedName },
    Const,
    Member,
    /// A struct definition.
    Struct,
    TypeDefinition,
    Label { pc: u64 },
    Function { pc: u64 },
    Namespace,
    Reference,
    Scope,
}

/// The mathematical content of an identifier definition.
pub enum IdDefV {
    Future,
    Alias { destination: Seq<Seq<char>> },
    Const,
    Member,
    Struct,
    TypeDefinition,
    Label { pc: u64 },
    Function { pc: u64 },
    Namespace,
    Reference,
    Scope,
}

impl View for IdentifierDefinition {
    type V = IdDefV;

    open spec fn view(&self) -> IdDefV {
        match self {
            IdentifierDefinition::Future => IdDefV::Future,
            IdentifierDefinition::Alias { destination } => IdDefV::Alias {
                destination: destination@,
            },
            IdentifierDefinition::Const => IdDefV::Const,
            IdentifierDefinition::Member => IdDefV::Member,
            IdentifierDefinition::Struct => IdDefV::Struct,
            IdentifierDefinition::TypeDefinition => IdDefV::TypeDefinition,
            IdentifierDefinition::Label { pc } => IdDefV::Label { pc: *pc },
            IdentifierDefinition::Function { pc } => IdDefV::Function { pc: *pc },
            IdentifierDefinition::Namespace => IdDefV::Namespace,
            IdentifierDefinition::Reference => IdDefV::Reference,
            IdentifierDefinition::Scope => IdDefV::Scope,
        }
    }
}

impl Clone for IdentifierDefinition {
    fn clone(&self) -> (r: Self)
        ensures
            r@ == self@,
    {
        match self {
            IdentifierDefinition::Future => IdentifierDefinition::Future,
            IdentifierDefinition::Alias { destination } => IdentifierDefinition::Alias {
                destination: destination.clone(),
            },
            IdentifierDefinition::Const => IdentifierDefinition::Const,
            IdentifierDefinition::Member => IdentifierDefinition::Member,
            IdentifierDefinition::Struct => IdentifierDefinition::Struct,
            IdentifierDefinition::TypeDefinition => IdentifierDefinition::TypeDefinition,
            IdentifierDefinition::Label { pc } => IdentifierDefinition::Label { pc: *pc },
            IdentifierDefinition::Function { pc } => IdentifierDefinition::Function { pc: *pc },
            IdentifierDefinition::Namespace => IdentifierDefinition::Namespace,
            IdentifierDefinition::Reference => IdentifierDefinition::Reference,
            IdentifierDefinition::Scope => IdentifierDefinition::Scope,
        }
    }
}

impl IdentifierDefinition {
    /// Whether the definition marks an executable location.
    pub fn is_label(&self) -> (r: bool)
        ensures
            r == (self@ matches IdDefV::Label { .. } || self@ matches IdDefV::Function { .. }),
    {
        match self {
            IdentifierDefinition::Label { .. } => true,
            IdentifierDefinition::Function { .. } => true,
            _ => false,
        }
    }
}

/// An unknown identifier.
#[derive(Debug)]
pub struct MissingIdentifierError {
    pub fullname: ScopedName,
}

/// A scope name where an identifier was expected.
#[derive(Debug)]
pub struct NotAnIdentifierError {
    pub fullname: ScopedName,
}

/// A fault while looking an identifier up.
#[derive(Debug)]
pub enum IdentifierError {
    MissingIdentifier(MissingIdentifierError),
    NotAnIdentifier(NotAnIdentifierError),
    CyclicAliasing,
}

/// The mathematical content of a lookup fault.
pub enum IdErrV {
    Missing { fullname: Seq<Seq<char>> },
    NotAnIdentifier { fullname: Seq<Seq<char>> },
    Cyclic,
}

impl View for IdentifierError {
    type V = IdErrV;

    open spec fn view(&self) -> IdErrV {
        match self {
            IdentifierError::MissingIdentifier(e) => IdErrV::Missing { fullname: e.fullname@ },
            IdentifierError::NotAnIdentifier(e) => IdErrV::NotAnIdentifier {
                fullname: e.fullname@,
            },
            IdentifierError::CyclicAliasing => IdErrV::Cyclic,
        }
    }
}

/// A found identifier: its definition, its canonical name, and the part of
/// the queried name that was not consumed.
#[derive(Debug)]
pub struct IdentifierSearchResult {
    pub identifier_definition: IdentifierDefinition,
    pub canonical_name: ScopedName,
    pub non_parsed: ScopedName,
}

/// The mathematical content of a search result.
pub struct SearchV {
    pub definition: IdDefV,
    pub canonical: Seq<Seq<char>>,
    pub non_parsed: Seq<Seq<char>>,
}

impl View for IdentifierSearchResult {
    type V = SearchV;

    open spec fn view(&self) -> SearchV {
        SearchV {
            definition: self.identifier_definition@,
            canonical: self.canonical_name@,
            non_parsed: self.non_parsed@,
        }
    }
}

/// The entries with names and definitions taken mathematically.
pub open spec fn id_entries(s: Seq<(ScopedName, IdentifierDefinition)>) -> Seq<
    (Seq<Seq<char>>, IdDefV),
> {
    s.map_values(|e: (ScopedName, IdentifierDefinition)| (e.0@, e.1@))
}

/// A dotted name is a scope when some identifier lives strictly below it.
pub open spec fn is_scope(m: Map<Seq<Seq<char>>, IdDefV>, p: Seq<Seq<char>>) -> bool {
    exists|k: Seq<Seq<char>>|
        #[trigger] m.dom().contains(k) && p.len() < k.len() && k.subrange(0, p.len() as int) == p
}

/// What the scope walk finds for a name, descending one segment at a time:
/// as long as more than one segment is left and the prefix is a scope, the
/// walk descends; then the prefix either names an identifier (returned
/// with the unconsumed suffix), names a scope (a fault), or is unknown.
pub open spec fn spec_scope_get(
    m: Map<Seq<Seq<char>>, IdDefV>,
    name: Seq<Seq<char>>,
    d: nat,
) -> Result<SearchV, IdErrV>
    decreases name.len() - d,
{
    if d + 1 > name.len() {
        Err(IdErrV::Missing { fullname: name })
    } else {
        let pfx = name.subrange(0, d + 1 as int);
        if name.len() - d > 1 && is_scope(m, pfx) {
            spec_scope_get(m, name, d + 1)
        } else if m.dom().contains(pfx) {
            Ok(
                SearchV {
                    definition: m[pfx],
                    canonical: pfx,
                    non_parsed: name.subrange(d + 1 as int, name.len() as int),
                },
            )
        } else if is_scope(m, pfx) {
            Err(IdErrV::NotAnIdentifier { fullname: pfx })
        } else {
            Err(IdErrV::Missing { fullname: pfx })
        }
    }
}

/// What alias resolution finds: the walk's result, with every alias
/// followed (its destination concatenated with the unconsumed suffix),
/// until a non-alias is found or the allotted fuel runs out, which is
/// reported as cyclic aliasing.
pub open spec fn spec_resolve(
    m: Map<Seq<Seq<char>>, IdDefV>,
    name: Seq<Seq<char>>,
    fuel: nat,
) -> Result<SearchV, IdErrV>
    decreases fuel,
{
    match spec_scope_get(m, name, 0) {
        Err(e) => Err(e),
        Ok(res) => match res.definition {
            IdDefV::Alias { destination } => if fuel == 0 {
                Err(IdErrV::Cyclic)
            } else {
                spec_resolve(m, destination + res.non_parsed, (fuel - 1) as nat)
            },
            _ => Ok(res),
        },
    }
}

/// Manages the identifiers and their definitions, as one flat store of
/// full dotted names; scopes are implicit in the stored names.
#[derive(Debug)]
pub struct IdentifierManager {
    pub entries: Vec<(ScopedName, IdentifierDefinition)>,
}

impl View for IdentifierManager {
    type V = Map<Seq<Seq<char>>, IdDefV>;

    open spec fn view(&self) -> Map<Seq<Seq<char>>, IdDefV> {
        assoc_map(id_entries(self.entries@))
    }
}

impl IdentifierManager {
    pub fn new() -> (r: Self)
        ensures
            r@ == Map::<Seq<Seq<char>>, IdDefV>::empty(),
    {
        Self { entries: Vec::new() }
    }

    /// Adds an identifier under its full dotted name; an existing
    /// definition is overridden.
    pub fn add_identifier(&mut self, name: ScopedName, definition: IdentifierDefinition)
        ensures
            final(self)@ == old(self)@.insert(name@, definition@),
    {
        let ghost pre = self.entries@;
        let ghost nv = name@;
        let ghost dv = definition@;
        self.entries.push((name, definition));
        proof {
            assert(id_entries(self.entries@) =~= id_entries(pre).push((nv, dv)));
            lemma_assoc_push(id_entries(pre), nv, dv);
        }
    }

    /// The stored definition under exactly this name, if any.
    fn lookup(&self, name: &ScopedName) -> (r: Option<&IdentifierDefinition>)
        ensures
            match r {
                Some(d) => self@.dom().contains(name@) && self@[name@] == d@,
                None => !self@.dom().contains(name@),
            },
    {
        let mut i = self.entries.len();
        while i > 0
            invariant
                i <= self.entries@.len(),
                forall|j: int|
                    i <= j < self.entries@.len() ==> (#[trigger] self.entries@[j]).0@ != name@,
            decreases i,
        {
            i = i - 1;
            if &self.entries[i].0 == name {
                proof {
                    assert(id_entries(self.entries@)[i as int] == (self.entries@[i as int].0@,
                    self.entries@[i as int].1@));
                    assert(forall|j: int|
                        i < j < self.entries@.len() ==> (#[trigger] id_entries(self.entries@)[j]).0
                            != name@);
                    lemma_assoc_value(id_entries(self.entries@), i as int);
                }
                return Some(&self.entries[i].1);
            }
        }
        proof {
            lemma_assoc_contains(id_entries(self.entries@), name@);
        }
        None
    }

    /// Whether the first `dlen` segments of `name` form a scope: some
    /// stored identifier lives strictly below them.
    fn has_scope(&self, name: &ScopedName, dlen: usize) -> (r: bool)
        requires
            dlen <= name@.len(),
        ensures
            r == is_scope(self@, name@.subrange(0, dlen as int)),
    {
        let ghost pfx = name@.subrange(0, dlen as int);
        let n = self.entries.len();
        let mut i: usize = 0;
        while i < n
            invariant
                n == self.entries@.len(),
                i <= n,
                dlen <= name@.len(),
                pfx == name@.subrange(0, dlen as int),
                forall|j: int|
                    0 <= j < i ==> !((#[trigger] self.entries@[j]).0@.len() > dlen
                        && self.entries@[j].0@.subrange(0, dlen as int) == pfx),
            decreases n - i,
        {
            let key = &self.entries[i].0;
            if key.path.len() > dlen {
                let mut k: usize = 0;
                let mut matches_pfx = true;
                while k < dlen
                    invariant
                        dlen <= name@.len(),
                        dlen < key@.len(),
                        k <= dlen,
                        matches_pfx ==> forall|j: int|
                            0 <= j < k ==> (#[trigger] key@[j]) == name@[j],
                        !matches_pfx ==> exists|j: int|
                            0 <= j < dlen && (#[trigger] key@[j]) != name@[j],
                    decreases dlen - k,
                {
                    if key.path[k] != name.path[k] {
                        proof {
                            assert(key@[k as int] != name@[k as int]);
                        }
                        matches_pfx = false;
                    }
                    k = k + 1;
                }
                if matches_pfx {
                    proof {
                        assert(key@.subrange(0, dlen as int) =~= pfx);
                        assert(id_entries(self.entries@)[i as int].0 == key@);
                        lemma_assoc_contains(id_entries(self.entries@), key@);
                        assert(self@.dom().contains(key@));
                    }
                    return true;
                } else {
                    proof {
                        assert(key@.subrange(0, dlen as int) != pfx) by {
                            let j = choose|j: int|
                                0 <= j < dlen && (#[trigger] key@[j]) != name@[j];
                            assert(key@.subrange(0, dlen as int)[j] == key@[j]);
                            assert(pfx[j] == name@[j]);
                        }
                    }
                }
            }
            i = i + 1;
        }
        proof {
            if is_scope(self@, pfx) {
                let k = choose|k: Seq<Seq<char>>|
                    #[trigger] self@.dom().contains(k) && pfx.len() < k.len() && k.subrange(
                        0,
                        pfx.len() as int,
                    ) == pfx;
                lemma_assoc_contains(id_entries(self.entries@), k);
                let j = choose|j: int|
                    0 <= j < id_entries(self.entries@).len() && (#[trigger] id_entries(
                        self.entries@,
                    )[j]).0 == k;
                assert(self.entries@[j].0@ == k);
            }
        }
        false
    }

    /// The scope walk for a name, without alias resolution.
    fn raw_get(&self, name: &ScopedName) -> (r: Result<IdentifierSearchResult, IdentifierError>)
        requires
            name@.len() > 0,
        ensures
            match r {
                Ok(v) => spec_scope_get(self@, name@, 0) == Ok::<SearchV, IdErrV>(v@),
                Err(e) => spec_scope_get(self@, name@, 0) == Err::<SearchV, IdErrV>(e@),
            },
    {
        let n = name.len();
        let mut d: usize = 0;
        while n - d > 1 && self.has_scope(name, d + 1)
            invariant
                n == name@.len(),
                0 < n,
                d < n,
                spec_scope_get(self@, name@, 0) == spec_scope_get(self@, name@, d as nat),
            decreases n - d,
        {
            d = d + 1;
        }
        let pfx = name.slice(0, d + 1);
        match self.lookup(&pfx) {
            Some(def) => Ok(
                IdentifierSearchResult {
                    identifier_definition: def.clone(),
                    canonical_name: pfx,
                    non_parsed: name.slice(d + 1, n),
                },
            ),
            None => {
                if self.has_scope(name, d + 1) {
                    Err(
                        IdentifierError::NotAnIdentifier(
                            NotAnIdentifierError { fullname: pfx },
                        ),
                    )
                } else {
                    Err(
                        IdentifierError::MissingIdentifier(
                            MissingIdentifierError { fullname: pfx },
                        ),
                    )
                }
            },
        }
    }

    /// Finds the identifier with the given name, following aliases. A
    /// chain of aliases longer than the store itself is reported as
    /// cyclic.
    pub fn get(&self, name: &ScopedName) -> (r: Result<IdentifierSearchResult, IdentifierError>)
        requires
            name@.len() > 0,
        ensures
            match r {
                Ok(v) => spec_resolve(self@, name@, self.entries@.len()) == Ok::<
                    SearchV,
                    IdErrV,
                >(v@),
                Err(e) => spec_resolve(self@, name@, self.entries@.len()) == Err::<
                    SearchV,
                    IdErrV,
                >(e@),
            },
    {
        let mut fuel: usize = self.entries.len();
        let mut current: ScopedName = name.clone();
        loop
            invariant
                current@.len() > 0,
                fuel <= self.entries@.len(),
                spec_resolve(self@, name@, self.entries@.len()) == spec_resolve(
                    self@,
                    current@,
                    fuel as nat,
                ),
            decreases fuel,
        {
            let ghost fuel0 = fuel as nat;
            let ghost cur0 = current@;
            let res = match self.raw_get(&current) {
                Ok(res) => res,
                Err(e) => {
                    return Err(e);
                },
            };
            match &res.identifier_definition {
                IdentifierDefinition::Alias { destination } => {
                    if fuel == 0 {
                        return Err(IdentifierError::CyclicAliasing);
                    }
                    fuel = fuel - 1;
                    let next = destination.concat(&res.non_parsed);
                    proof {
                        assert(next@.len() == next.path@.len());
                        assert(spec_resolve(self@, cur0, fuel0) == spec_resolve(
                            self@,
                            next@,
                            (fuel0 - 1) as nat,
                        ));
                    }
                    if next.path.len() == 0 {
                        proof {
                            assert(spec_scope_get(self@, next@, 0) == Err::<SearchV, IdErrV>(
                                IdErrV::Missing { fullname: next@ },
                            ));
                        }
                        return Err(
                            IdentifierError::MissingIdentifier(
                                MissingIdentifierError { fullname: next },
                            ),
                        );
                    }
                    current = next;
                },
                _ => {
                    return Ok(res);
                },
            }
        }
    }
}

/// What searching the accessible scopes finds: scopes are tried from the
/// last to the first; a scope is skipped only when the missing prefix
/// shows the name's head itself was absent there.
pub open spec fn spec_search(
    m: Map<Seq<Seq<char>>, IdDefV>,
    scopes: Seq<Seq<Seq<char>>>,
    name: Seq<Seq<char>>,
    fuel: nat,
) -> Result<SearchV, IdErrV>
    decreases scopes.len(),
{
    if scopes.len() == 0 {
        Err(IdErrV::Missing { fullname: name.subrange(1, name.len() as int) })
    } else {
        let scope = scopes.last();
        match spec_resolve(m, scope + name, fuel) {
            Ok(r) => Ok(r),
            Err(IdErrV::Missing { fullname }) => {
                let probe = scope + name.subrange(1, name.len() as int);
                if probe.len() >= fullname.len() && probe.subrange(0, fullname.len() as int)
                    == fullname {
                    spec_search(m, scopes.drop_last(), name, fuel)
                } else {
                    Err(IdErrV::Missing { fullname })
                }
            },
            Err(e) => Err(e),
        }
    }
}

impl IdentifierManager {
    /// Searches an identifier in the given accessible scopes; later scopes
    /// override earlier ones.
    pub fn search(&self, accessible_scopes: &Vec<ScopedName>, name: &ScopedName) -> (r: Result<
        IdentifierSearchResult,
        IdentifierError,
    >)
        requires
            name@.len() > 0,
        ensures
            ({
                let scopes = accessible_scopes@.map_values(|s: ScopedName| s@);
                match r {
                    Ok(v) => spec_search(self@, scopes, name@, self.entries@.len()) == Ok::<
                        SearchV,
                        IdErrV,
                    >(v@),
                    Err(e) => spec_search(self@, scopes, name@, self.entries@.len()) == Err::<
                        SearchV,
                        IdErrV,
                    >(e@),
                }
            }),
    {
        let ghost scopes = accessible_scopes@.map_values(|s: ScopedName| s@);
        let mut i = accessible_scopes.len();
        proof {
            assert(scopes.subrange(0, i as int) =~= scopes);
        }
        while i > 0
            invariant
                i <= accessible_scopes@.len(),
                scopes == accessible_scopes@.map_values(|s: ScopedName| s@),
                name@.len() > 0,
                spec_search(self@, scopes, name@, self.entries@.len()) == spec_search(
                    self@,
                    scopes.subrange(0, i as int),
                    name@,
                    self.entries@.len(),
                ),
            decreases i,
        {
            i = i - 1;
            let scope = &accessible_scopes[i];
            let full = scope.concat(name);
            let ghost pre = scopes.subrange(0, i + 1);
            proof {
                assert(pre.last() == scopes[i as int]);
                assert(scopes[i as int] == scope@);
                assert(pre.drop_last() =~= scopes.subrange(0, i as int));
            }
            match self.get(&full) {
                Ok(v) => {
                    return Ok(v);
                },
                Err(e) => {
                    let is_missing = match &e {
                        IdentifierError::MissingIdentifier(_) => true,
                        _ => false,
                    };
                    if !is_missing {
                        return Err(e);
                    }
                    match e {
                        IdentifierError::MissingIdentifier(exc) => {
                            let probe = scope.concat(&name.slice(1, name.len()));
                            if !probe.startswith(&exc.fullname) {
                                return Err(
                                    IdentifierError::MissingIdentifier(exc),
                                );
                            }
                        },
                        _ => {},
                    }
                },
            }
        }
        proof {
            assert(scopes.subrange(0, 0) =~= Seq::<Seq<Seq<char>>>::empty());
        }
        Err(
            IdentifierError::MissingIdentifier(
                MissingIdentifierError { fullname: name.slice(1, name.len()) },
            ),
        )
    }
}

} // verus!