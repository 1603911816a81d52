use vstd::prelude::*;

use crate::bytes::bytes_equal;

verus! {

/// What a symbol stands for: a code label, an integer constant, or a string
/// constant in the read-only area.
#[derive(Debug, Clone, Copy, PartialEq, Eq, Structural)]
pub enum SymbolType {
    Label,
    Integer,
    IrString,
}

/// The mathematical content of a symbol: its name, its resolved offset if
/// any, and its kind.
pub ghost struct SymbolV {
    pub name: Seq<u8>,
    pub offset: Option<u32>,
    pub symbol_type: SymbolType,
}

/// A named offset recorded during assembly. Code symbols resolve to byte
/// offsets from the start of the code section; data symbols resolve to byte
/// offsets into the read-only area.
#[derive(Debug, Clone)]
pub struct Symbol {
    name: Vec<u8>,
    offset: Option<u32>,
    symbol_type: SymbolType,
}

impl View for Symbol {
    type V = SymbolV;

    closed spec fn view(&self) -> SymbolV {
        SymbolV { name: self.name@, offset: self.offset, symbol_type: self.symbol_type }
    }
}

impl Symbol {
    /// A symbol whose offset is not yet resolved.
    pub fn new(name: Vec<u8>, symbol_type: SymbolType) -> (s: Self)
        ensures
            s@ == (SymbolV { name: name@, offset: None::<u32>, symbol_type }),
    {
        Symbol { name, offset: None, symbol_type }
    }

    /// A symbol already resolved to `offset`.
    pub fn new_with_offset(name: Vec<u8>, symbol_type: SymbolType, offset: u32) -> (s: Self)
        ensures
            s@ == (SymbolV { name: name@, offset: Some(offset), symbol_type }),
    {
        Symbol { name, offset: Some(offset), symbol_type }
    }
}

/// The index of the first symbol named `name`, or -1 when no symbol has that
/// name.
pub open spec fn spec_name_index(symbols: Seq<SymbolV>, name: Seq<u8>) -> int
    decreases symbols.len(),
{
    if symbols.len() == 0 {
        -1
    } else if symbols[0].name == name {
        0
    } else {
        let rest = spec_name_index(symbols.drop_first(), name);
        if rest < 0 {
            -1
        } else {
            rest + 1
        }
    }
}

/// Whether some symbol is named `name`.
pub open spec fn spec_has_name(symbols: Seq<SymbolV>, name: Seq<u8>) -> bool {
    spec_name_index(symbols, name) >= 0
}

/// The offset field of the first symbol named `name`: `None` when the name
/// is absent, and otherwise that symbol's (possibly unresolved) offset.
pub open spec fn spec_symbol_value(symbols: Seq<SymbolV>, name: Seq<u8>) -> Option<u32> {
    let i = spec_name_index(symbols, name);
    if i < 0 {
        None
    } else {
        symbols[i].offset
    }
}

/// The symbols with the first one named `name`, if any, resolved to
/// `offset`.
pub open spec fn spec_set_offset(symbols: Seq<SymbolV>, name: Seq<u8>, offset: u32) -> Seq<
    SymbolV,
> {
    let i = spec_name_index(symbols, name);
    if i < 0 {
        symbols
    } else {
        symbols.update(
            i,
            SymbolV {
                name: symbols[i].name,
                offset: Some(offset),
                symbol_type: symbols[i].symbol_type,
            },
        )
    }
}

/// `spec_name_index` names the first index whose symbol carries the name,
/// and -1 exactly when no symbol does.
pub proof fn lemma_name_index(symbols: Seq<SymbolV>, name: Seq<u8>)
    ensures
        ({
            let i = spec_name_index(symbols, name);
            &&& i >= 0 ==> 0 <= i < symbols.len() && symbols[i].name == name && (forall|j: int|
                0 <= j < i ==> symbols[j].name != name)
            &&& i < 0 ==> forall|j: int| 0 <= j < symbols.len() ==> symbols[j].name != name
        }),
    decreases symbols.len(),
{
    if symbols.len() > 0 && symbols[0].name != name {
        lemma_name_index(symbols.drop_first(), name);
        assert(forall|j: int|
            1 <= j < symbols.len() ==> symbols[j] == symbols.drop_first()[j - 1]);
    }
}

/// A name is present exactly when some symbol carries it.
pub proof fn lemma_has_name_iff(symbols: Seq<SymbolV>, name: Seq<u8>)
    ensures
        spec_has_name(symbols, name) <==> exists|j: int|
            0 <= j < symbols.len() && symbols[j].name == name,
{
    lemma_name_index(symbols, name);
    if spec_has_name(symbols, name) {
        let i = spec_name_index(symbols, name);
        assert(0 <= i < symbols.len() && symbols[i].name == name);
    }
}

/// Appending a symbol keeps every present name present and makes the new
/// symbol's name present.
pub proof fn lemma_has_name_push(symbols: Seq<SymbolV>, s: SymbolV, name: Seq<u8>)
    ensures
        spec_has_name(symbols, name) ==> spec_has_name(symbols.push(s), name),
        s.name == name ==> spec_has_name(symbols.push(s), name),
{
    lemma_has_name_iff(symbols, name);
    lemma_has_name_iff(symbols.push(s), name);
    if spec_has_name(symbols, name) {
        let j = choose|j: int| 0 <= j < symbols.len() && symbols[j].name == name;
        assert(symbols.push(s)[j].name == name);
    }
    if s.name == name {
        assert(symbols.push(s)[symbols.len() as int].name == name);
    }
}

/// Resolving an offset renames nothing: the same names are present
/// before and after.
pub proof fn lemma_set_offset_names(
    symbols: Seq<SymbolV>,
    target: Seq<u8>,
    offset: u32,
    name: Seq<u8>,
)
    ensures
        spec_has_name(spec_set_offset(symbols, target, offset), name) == spec_has_name(
            symbols,
            name,
        ),
{
    let after = spec_set_offset(symbols, target, offset);
    lemma_name_index(symbols, target);
    lemma_has_name_iff(symbols, name);
    lemma_has_name_iff(after, name);
    assert(after.len() == symbols.len());
    assert(forall|j: int| 0 <= j < symbols.len() ==> after[j].name == symbols[j].name);
    if spec_has_name(symbols, name) {
        let j = choose|j: int| 0 <= j < symbols.len() && symbols[j].name == name;
        assert(after[j].name == name);
    }
    if spec_has_name(after, name) {
        let j = choose|j: int| 0 <= j < after.len() && after[j].name == name;
        assert(symbols[j].name == name);
    }
}

/// The set of symbols collected by assembly, looked up by name. The first
/// symbol added under a name answers for it; the assembler forbids
/// duplicates on its own.
#[derive(Debug, Clone)]
pub struct SymbolTable {
    pub symbols: Vec<Symbol>,
}

impl View for SymbolTable {
    type V = Seq<SymbolV>;

    open spec fn view(&self) -> Seq<SymbolV> {
        self.symbols@.map_values(|s: Symbol| s@)
    }
}

impl SymbolTable {
    /// An empty table.
    pub fn new() -> (t: Self)
        ensures
            t@ =~= Seq::<SymbolV>::empty(),
    {
        SymbolTable { symbols: Vec::new() }
    }

    /// Append a symbol; a duplicate name is accepted here and shadowed by
    /// the earlier entry.
    pub fn add_symbol(&mut self, s: Symbol)
        ensures
            final(self)@ == old(self)@.push(s@),
    {
        self.symbols.push(s);
        proof {
            assert(self@ =~= old(self)@.push(s@));
        }
    }

    /// Whether the table holds a symbol named `s`.
    pub fn has_symbol(&self, s: &[u8]) -> (r: bool)
        ensures
            r == spec_has_name(self@, s@),
    {
        proof {
            lemma_name_index(self@, s@);
        }
        let n = self.symbols.len();
        let mut i: usize = 0;
        while i < n
            invariant
                n == self.symbols@.len(),
                i <= n,
                forall|j: int| 0 <= j < i ==> self@[j].name != s@,
            decreases n - i,
        {
            if bytes_equal(self.symbols[i].name.as_slice(), s) {
                proof {
                    assert(self@[i as int] == self.symbols@[i as int]@);
                    lemma_name_index(self@, s@);
                }
                return true;
            }
            i = i + 1;
        }
        false
    }

    /// Resolve the first symbol named `s` to `offset`. Answers whether a
    /// symbol with that name was found; without one the table is unchanged.
    pub fn set_symbol_offset(&mut self, s: &[u8], offset: u32) -> (r: bool)
        ensures
            r == spec_has_name(old(self)@, s@),
            final(self)@ == spec_set_offset(old(self)@, s@, offset),
    {
        proof {
            lemma_name_index(self@, s@);
        }
        let n = self.symbols.len();
        let mut i: usize = 0;
        while i < n
            invariant
                n == self.symbols@.len(),
                i <= n,
                self@ == old(self)@,
                forall|j: int| 0 <= j < i ==> self@[j].name != s@,
            decreases n - i,
        {
            if bytes_equal(self.symbols[i].name.as_slice(), s) {
                proof {
                    assert(self@[i as int] == self.symbols@[i as int]@);
                    lemma_name_index(self@, s@);
                    assert(spec_name_index(old(self)@, s@) == i as int);
                }
                self.symbols[i].offset = Some(offset);
                proof {
                    assert(self@ =~= spec_set_offset(old(self)@, s@, offset));
                }
                return true;
            }
            i = i + 1;
        }
        false
    }

    /// The offset of the first symbol named `s`, or `None` when the name is
    /// absent or still unresolved.
    pub fn symbol_value(&self, s: &[u8]) -> (r: Option<u32>)
        ensures
            r == spec_symbol_value(self@, s@),
    {
        proof {
            lemma_name_index(self@, s@);
        }
        let n = self.symbols.len();
        let mut i: usize = 0;
        while i < n
            invariant
                n == self.symbols@.len(),
                i <= n,
                forall|j: int| 0 <= j < i ==> self@[j].name != s@,
            decreases n - i,
        {
            if bytes_equal(self.symbols[i].name.as_slice(), s) {
                proof {
                    assert(self@[i as int] == self.symbols@[i as int]@);
                    lemma_name_index(self@, s@);
                    assert(spec_name_index(self@, s@) == i as int);
                }
                return self.symbols[i].offset;
            }
            i = i + 1;
        }
        None
    }
}

} // verus!
