use vstd::prelude::*;

verus! {

/// What a symbol names.
#[derive(Clone, Copy, Debug, PartialEq, Eq, Structural)]
pub enum SymbolType {
    Label,
    Integer,
    String,
}

/// Where a symbol stands, and what it names.
#[derive(Clone, Copy, Debug, PartialEq, Eq, Structural)]
pub struct SymbolInfo {
    /// Byte offset in the code section.
    pub offset: u32,
    pub symbol_type: SymbolType,
}

impl SymbolInfo {
    pub fn new(offset: u32, t: SymbolType) -> (r: SymbolInfo)
        ensures
            r == (SymbolInfo { offset, symbol_type: t }),
    {
        SymbolInfo { offset, symbol_type: t }
    }
}

/// Symbols by name; each name occurs at most once.
pub struct SymbolTable {
    names: Vec<String>,
    infos: Vec<SymbolInfo>,
}

impl SymbolTable {
    /// Well-formed: one symbol per name.
    pub closed spec fn wf(&self) -> bool {
        &&& self.names.len() == self.infos.len()
        &&& forall|i: int, j: int|
            0 <= i < self.names.len() && 0 <= j < self.names.len() && i != j
                ==> #[trigger] self.names@[i]@ != #[trigger] self.names@[j]@
    }

    /// Whether entry `i` holds `name`.
    spec fn holds(&self, i: int, name: Seq<char>) -> bool {
        0 <= i < self.names.len() && self.names@[i]@ == name
    }

    /// The table as a map from names to symbols.
    pub closed spec fn view(&self) -> Map<Seq<char>, SymbolInfo> {
        Map::new(
            |k: Seq<char>| exists|i: int| self.holds(i, k),
            |k: Seq<char>| self.infos@[choose|i: int| self.holds(i, k)],
        )
    }

    /// An empty table.
    pub fn new() -> (r: SymbolTable)
        ensures
            r.wf(),
            r@ == Map::<Seq<char>, SymbolInfo>::empty(),
    {
        let r = SymbolTable { names: Vec::new(), infos: Vec::new() };
        assert(r@ =~= Map::<Seq<char>, SymbolInfo>::empty());
        r
    }

    /// The symbol named `name`, if there is one.
    pub fn lookup(&self, name: &String) -> (r: Option<SymbolInfo>)
        requires
            self.wf(),
        ensures
            r == if self@.contains_key(name@) {
                Some(self@[name@])
            } else {
                None::<SymbolInfo>
            },
    {
        let mut i: usize = 0;
        while i < self.names.len()
            invariant
                self.wf(),
                i <= self.names.len(),
                forall|j: int| 0 <= j < i ==> !self.holds(j, name@),
            decreases self.names.len() - i,
        {
            if self.names[i] == *name {
                proof {
                    assert(self.holds(i as int, name@));
                    let c = choose|j: int| self.holds(j, name@);
                    assert(c == i);
                }
                return Some(self.infos[i]);
            }
            i = i + 1;
        }
        None
    }

    /// Adds a symbol under a name that the table does not hold yet.
    pub fn insert(&mut self, name: String, info: SymbolInfo)
        requires
            old(self).wf(),
            !old(self)@.contains_key(name@),
        ensures
            final(self).wf(),
            final(self)@ == old(self)@.insert(name@, info),
    {
        let ghost old_table = *self;
        let ghost key = name@;
        let ghost n = self.names.len() as int;
        self.names.push(name);
        self.infos.push(info);
        proof {
            assert forall|i: int| 0 <= i < n implies old_table.names@[i]@ != key by {
                if old_table.names@[i]@ == key {
                    assert(old_table.holds(i, key));
                }
            }
            assert forall|i: int, j: int|
                0 <= i < self.names.len() && 0 <= j < self.names.len() && i != j implies #[trigger] self.names@[i]@
                    != #[trigger] self.names@[j]@ by {
                if i < n && j < n {
                    assert(old_table.names@[i] == self.names@[i]);
                    assert(old_table.names@[j] == self.names@[j]);
                }
            }
        }
        proof {
            assert forall|k: Seq<char>| #[trigger] self@.contains_key(k) == old_table@.insert(key, info).contains_key(k) by {
                if k == key {
                    assert(self.holds(n, k));
                } else if exists|i: int| old_table.holds(i, k) {
                    let i = choose|i: int| old_table.holds(i, k);
                    assert(self.holds(i, k));
                } else {
                    assert forall|i: int| !self.holds(i, k) by {
                        if 0 <= i < n {
                            assert(!old_table.holds(i, k));
                        }
                    }
                }
            }
            assert forall|k: Seq<char>| #[trigger] self@.contains_key(k) implies self@[k] == old_table@.insert(key, info)[k] by {
                let c = choose|i: int| self.holds(i, k);
                if k == key {
                    assert(self.holds(n, k));
                    assert(c == n);
                } else {
                    assert(c < n);
                    assert(old_table.holds(c, k));
                    let d = choose|i: int| old_table.holds(i, k);
                    assert(old_table.holds(d, k));
                    assert(c == d);
                }
            }
            assert(self@ =~= old_table@.insert(key, info));
        }
    }

    /// Removes every symbol.
    pub fn clear(&mut self)
        ensures
            final(self).wf(),
            final(self)@ == Map::<Seq<char>, SymbolInfo>::empty(),
    {
        self.names = Vec::new();
        self.infos = Vec::new();
        assert(self@ =~= Map::<Seq<char>, SymbolInfo>::empty());
    }
}

} // verus!
