use vstd::prelude::*;

use object::Object;

use crate::config::{opt_text, Identifier};
use crate::signature::RemoteProcSignature;
use crate::text::utf8_string;
use vstd::utf8::{decode_utf8, valid_utf8};

verus! {

#[verifier::external_type_specification]
#[verifier::external_body]
pub struct ExObjectError(object::read::Error);

/// What a declared identifier reads as: name (alias), symbol, signature.
pub type IdentifierView = (Seq<char>, Seq<char>, RemoteProcSignature);

/// An exported entry point: its symbol and its address in the module.
pub type ExportView = (Seq<char>, u64);

/// A resolved procedure: alias, address, signature.
pub type ResolvedView = (Option<Seq<char>>, Option<u64>, Option<RemoteProcSignature>);

/// One entry of a module's export table, before its name is decoded.
pub struct RawExport {
    /// The exported name; `None` where the entry is exported by ordinal only.
    pub name: Option<Vec<u8>>,
    /// The address; `None` where the entry is no plain address (an absolute
    /// value, thread-local storage, a re-export).
    pub address: Option<u64>,
}

impl View for RawExport {
    type V = (Option<Seq<u8>>, Option<u64>);

    open spec fn view(&self) -> Self::V {
        (
            match self.name {
                Some(n) => Some(n@),
                None => None,
            },
            self.address,
        )
    }
}

/// The export table of a module image, in table order; `None` where the image
/// cannot be parsed.
pub uninterp spec fn export_records_of(data: Seq<u8>) -> Option<Seq<(Option<Seq<u8>>, Option<u64>)>>;

/// Relies on `object::File::parse` and `Object::exports` (object 0.40): parses a
/// module image and lists its export table in order. Each entry's name is
/// copied where it has one, and its address where its target is `Address`.
#[verifier::external_body]
fn read_export_records(data: &[u8]) -> (r: Result<Vec<RawExport>, object::read::Error>)
    ensures
        match r {
            Ok(v) => export_records_of(data@) == Some(v@.map_values(|x: RawExport| x@)),
            Err(_) => export_records_of(data@) is None,
        },
{
    let file = object::File::parse(data)?;
    file.exports()?.map(|e| e.map(|e| RawExport {
        name: match e.name() {
            object::read::NameOrOrdinal::Name(n) => Some(n.to_vec()),
            object::read::NameOrOrdinal::Ordinal(_) => None,
        },
        address: match e.target() {
            object::read::ExportTarget::Address { address } => Some(address),
            _ => None,
        },
    })).collect()
}

/// The exports that have a UTF-8 name and a plain address, in table order.
pub open spec fn decoded_exports(recs: Seq<(Option<Seq<u8>>, Option<u64>)>) -> Seq<ExportView>
    decreases recs.len(),
{
    if recs.len() == 0 {
        Seq::empty()
    } else {
        let rest = decoded_exports(recs.drop_last());
        let r = recs.last();
        match (r.0, r.1) {
            (Some(n), Some(a)) => if valid_utf8(n) {
                rest.push((decode_utf8(n), a))
            } else {
                rest
            },
            _ => rest,
        }
    }
}

/// The address exported under `sym`; where several entries share it, the last one.
pub open spec fn exported_address(exports: Seq<ExportView>, sym: Seq<char>) -> Option<u64>
    decreases exports.len(),
{
    if exports.len() == 0 {
        None
    } else if exports.last().0 == sym {
        Some(exports.last().1)
    } else {
        exported_address(exports.drop_last(), sym)
    }
}

/// The alias and signature declared for `sym`; a later declaration overrides an earlier one.
pub open spec fn declaration(ids: Seq<IdentifierView>, sym: Seq<char>) -> Option<
    (Seq<char>, RemoteProcSignature),
>
    decreases ids.len(),
{
    if ids.len() == 0 {
        None
    } else if ids.last().1 == sym {
        Some((ids.last().0, ids.last().2))
    } else {
        declaration(ids.drop_last(), sym)
    }
}

/// The table entry for `sym`: every export has one, carrying alias and
/// signature where it is declared; a declaration of a symbol that is not
/// exported keeps an entry without address.
pub open spec fn resolved_entry(
    exports: Seq<ExportView>,
    ids: Seq<IdentifierView>,
    sym: Seq<char>,
) -> Option<ResolvedView> {
    match exported_address(exports, sym) {
        Some(a) => Some(
            match declaration(ids, sym) {
                Some((alias, sig)) => (Some(alias), Some(a), Some(sig)),
                None => (None, Some(a), None),
            },
        ),
        None => match declaration(ids, sym) {
            Some((alias, sig)) => Some((Some(alias), None, Some(sig))),
            None => None,
        },
    }
}

/// The symbol table that exports and declarations give.
pub open spec fn symbol_table_spec(exports: Seq<ExportView>, ids: Seq<IdentifierView>) -> Map<
    Seq<char>,
    ResolvedView,
> {
    Map::new(
        |sym: Seq<char>| resolved_entry(exports, ids, sym) is Some,
        |sym: Seq<char>| resolved_entry(exports, ids, sym).unwrap(),
    )
}

/// A resolved procedure can be called when alias, address and signature are all known.
pub open spec fn is_valid_view(m: ResolvedView) -> bool {
    m.0 is Some && m.1 is Some && m.2 is Some
}

/// A map from symbol to entry; where a symbol repeats, its last entry counts.
pub open spec fn table_map(s: Seq<(Seq<char>, ResolvedView)>) -> Map<Seq<char>, ResolvedView>
    decreases s.len(),
{
    if s.len() == 0 {
        Map::empty()
    } else {
        table_map(s.drop_last()).insert(s.last().0, s.last().1)
    }
}

pub open spec fn export_views(exports: Seq<Export>) -> Seq<ExportView> {
    exports.map_values(|e: Export| e@)
}

pub open spec fn identifier_views(ids: Seq<Identifier>) -> Seq<IdentifierView> {
    ids.map_values(|i: Identifier| i@)
}

/// An export with a decoded name.
#[derive(Debug, Clone)]
pub struct Export {
    pub symbol: String,
    pub address: u64,
}

impl View for Export {
    type V = ExportView;

    open spec fn view(&self) -> ExportView {
        (self.symbol@, self.address)
    }
}

/// An export matched (or not) against the declared identifiers.
#[derive(Debug, Clone)]
pub struct Metadata {
    pub alias: Option<String>,
    pub address: Option<u64>,
    pub signature: Option<RemoteProcSignature>,
}

impl View for Metadata {
    type V = ResolvedView;

    open spec fn view(&self) -> ResolvedView {
        (opt_text(self.alias), self.address, self.signature)
    }
}

impl Metadata {
    /// Whether the procedure can be called: alias, address and signature are all present.
    pub fn is_valid(&self) -> (r: bool)
        ensures
            r == is_valid_view(self@),
    {
        self.alias.is_some() && self.address.is_some() && self.signature.is_some()
    }
}

/// The symbol table: one entry per symbol.
pub struct SymbolTable {
    entries: Vec<(String, Metadata)>,
}

pub open spec fn entry_views(s: Seq<(String, Metadata)>) -> Seq<(Seq<char>, ResolvedView)> {
    s.map_values(|e: (String, Metadata)| (e.0@, e.1@))
}

/// Entries past position `i` do not name `k`, so the map at `k` is decided by
/// the first `i` entries.
proof fn lemma_table_map_prefix(s: Seq<(Seq<char>, ResolvedView)>, i: int, k: Seq<char>)
    requires
        0 <= i <= s.len(),
        forall|j: int| i <= j < s.len() ==> (#[trigger] s[j]).0 != k,
    ensures
        table_map(s).contains_key(k) == table_map(s.subrange(0, i)).contains_key(k),
        table_map(s).contains_key(k) ==> table_map(s)[k] == table_map(s.subrange(0, i))[k],
    decreases s.len(),
{
    if i == s.len() {
        assert(s.subrange(0, i) =~= s);
    } else {
        let d = s.drop_last();
        assert(s[s.len() - 1].0 != k);
        assert forall|j: int| i <= j < d.len() implies (#[trigger] d[j]).0 != k by {
            assert(d[j] == s[j]);
        }
        lemma_table_map_prefix(d, i, k);
        assert(d.subrange(0, i) =~= s.subrange(0, i));
    }
}

proof fn lemma_table_map_push(s: Seq<(Seq<char>, ResolvedView)>, x: (Seq<char>, ResolvedView))
    ensures
        table_map(s.push(x)) == table_map(s).insert(x.0, x.1),
{
    assert(s.push(x).drop_last() =~= s);
}

/// An export of that symbol exists exactly when an address is exported under it.
pub proof fn lemma_exported_address_some(exports: Seq<ExportView>, sym: Seq<char>)
    ensures
        exported_address(exports, sym) is Some <==> exists|j: int|
            0 <= j < exports.len() && (#[trigger] exports[j]).0 == sym,
    decreases exports.len(),
{
    if exports.len() > 0 {
        let d = exports.drop_last();
        lemma_exported_address_some(d, sym);
        if exported_address(d, sym) is Some {
            let j = choose|j: int| 0 <= j < d.len() && (#[trigger] d[j]).0 == sym;
            assert(exports[j] == d[j]);
        }
        if exists|j: int| 0 <= j < exports.len() && (#[trigger] exports[j]).0 == sym {
            let j = choose|j: int| 0 <= j < exports.len() && (#[trigger] exports[j]).0 == sym;
            if j < d.len() {
                assert(d[j] == exports[j]);
            }
        }
    }
}

/// A declaration of that symbol exists exactly when `declaration` finds one.
pub proof fn lemma_declaration_some(ids: Seq<IdentifierView>, sym: Seq<char>)
    ensures
        declaration(ids, sym) is Some <==> exists|j: int|
            0 <= j < ids.len() && (#[trigger] ids[j]).1 == sym,
    decreases ids.len(),
{
    if ids.len() > 0 {
        let d = ids.drop_last();
        lemma_declaration_some(d, sym);
        if declaration(d, sym) is Some {
            let j = choose|j: int| 0 <= j < d.len() && (#[trigger] d[j]).1 == sym;
            assert(ids[j] == d[j]);
        }
        if exists|j: int| 0 <= j < ids.len() && (#[trigger] ids[j]).1 == sym {
            let j = choose|j: int| 0 <= j < ids.len() && (#[trigger] ids[j]).1 == sym;
            if j < d.len() {
                assert(d[j] == ids[j]);
            }
        }
    }
}

/// The address exported under `sym`, scanning from the end.
fn exported_address_of(exports: &Vec<Export>, sym: &String) -> (r: Option<u64>)
    ensures
        r == exported_address(export_views(exports@), sym@),
{
    let ghost e = export_views(exports@);
    let mut j: usize = exports.len();
    assert(e.subrange(0, j as int) =~= e);
    while j > 0
        invariant
            j <= exports@.len(),
            e == export_views(exports@),
            exported_address(e, sym@) == exported_address(e.subrange(0, j as int), sym@),
        decreases j,
    {
        let ghost p = e.subrange(0, j as int);
        assert(p.drop_last() =~= e.subrange(0, j - 1));
        assert(p.last() == exports@[j - 1]@);
        if exports[j - 1].symbol == *sym {
            return Some(exports[j - 1].address);
        }
        j = j - 1;
    }
    None
}

/// The position of the declaration that counts for `sym`: the last one.
fn find_declaration(ids: &Vec<Identifier>, sym: &String) -> (r: Option<usize>)
    ensures
        match r {
            Some(k) => {
                &&& k < ids@.len()
                &&& ids@[k as int].symbol@ == sym@
                &&& declaration(identifier_views(ids@), sym@) == Some(
                    (ids@[k as int].name@, ids@[k as int].signature),
                )
            },
            None => declaration(identifier_views(ids@), sym@) is None,
        },
{
    let ghost v = identifier_views(ids@);
    let mut j: usize = ids.len();
    assert(v.subrange(0, j as int) =~= v);
    while j > 0
        invariant
            j <= ids@.len(),
            v == identifier_views(ids@),
            declaration(v, sym@) == declaration(v.subrange(0, j as int), sym@),
        decreases j,
    {
        let ghost p = v.subrange(0, j as int);
        assert(p.drop_last() =~= v.subrange(0, j - 1));
        assert(p.last() == ids@[j - 1]@);
        if ids[j - 1].symbol == *sym {
            return Some(j - 1);
        }
        j = j - 1;
    }
    None
}

impl SymbolTable {
    pub closed spec fn view(&self) -> Map<Seq<char>, ResolvedView> {
        table_map(entry_views(self.entries@))
    }

    /// The count of entries.
    pub fn len(&self) -> (r: usize)
        ensures
            r == self.spec_len(),
    {
        self.entries.len()
    }

    /// The symbol and the entry at position `i`.
    pub fn entry(&self, i: usize) -> (r: Option<(&String, &Metadata)>)
        requires
            self.wf(),
        ensures
            match r {
                Some((k, m)) => self@.contains_key(k@) && self@[k@] == m@,
                None => true,
            },
            i < self.spec_len() <==> r is Some,
    {
        if i < self.entries.len() {
            proof {
                self.lemma_entry_value(i as int);
            }
            Some((&self.entries[i].0, &self.entries[i].1))
        } else {
            None
        }
    }

    /// No symbol has two entries.
    pub closed spec fn wf(&self) -> bool {
        forall|i: int, j: int|
            0 <= i < j < self.entries@.len() ==> (#[trigger] self.entries@[i]).0@ != (
            #[trigger] self.entries@[j]).0@
    }

    pub closed spec fn spec_len(&self) -> nat {
        self.entries@.len()
    }

    proof fn lemma_entry_contained(&self, i: int)
        requires
            0 <= i < self.entries@.len(),
        ensures
            self@.contains_key(self.entries@[i].0@),
        decreases self.entries@.len(),
    {
        let s = entry_views(self.entries@);
        assert(s[i].0 == self.entries@[i].0@);
        lemma_last_position(s, i, self.entries@[i].0@);
    }

    proof fn lemma_entry_value(&self, i: int)
        requires
            self.wf(),
            0 <= i < self.entries@.len(),
        ensures
            self@.contains_key(self.entries@[i].0@),
            self@[self.entries@[i].0@] == self.entries@[i].1@,
    {
        let s = entry_views(self.entries@);
        let k = self.entries@[i].0@;
        assert forall|j: int| i + 1 <= j < s.len() implies (#[trigger] s[j]).0 != k by {
            assert(self.entries@[i].0@ != self.entries@[j].0@);
        }
        lemma_table_map_prefix(s, i + 1, k);
        assert(s.subrange(0, i + 1) =~= s.subrange(0, i).push(s[i]));
        lemma_table_map_push(s.subrange(0, i), s[i]);
    }

    /// The entry of `sym`, if the table has one.
    pub fn get(&self, sym: &String) -> (r: Option<&Metadata>)
        ensures
            match r {
                Some(m) => self@.contains_key(sym@) && self@[sym@] == m@,
                None => !self@.contains_key(sym@),
            },
    {
        let ghost s = entry_views(self.entries@);
        let mut j: usize = self.entries.len();
        while j > 0
            invariant
                j <= self.entries@.len(),
                s == entry_views(self.entries@),
                forall|m: int| j <= m < s.len() ==> (#[trigger] s[m]).0 != sym@,
            decreases j,
        {
            if self.entries[j - 1].0 == *sym {
                proof {
                    lemma_table_map_prefix(s, j as int, sym@);
                    assert(s.subrange(0, j as int) =~= s.subrange(0, j - 1).push(s[j - 1]));
                    lemma_table_map_push(s.subrange(0, j - 1), s[j - 1]);
                }
                return Some(&self.entries[j - 1].1);
            }
            j = j - 1;
        }
        proof {
            lemma_table_map_prefix(s, 0, sym@);
        }
        None
    }

    /// The entries that can be called, in table order, as routes.
    pub fn routes(&self) -> (r: Vec<Route>)
        ensures
            forall|i: int|
                0 <= i < r@.len() ==> self@.contains_key((#[trigger] r@[i]).symbol@)
                    && self@[r@[i].symbol@] == (
                Some(r@[i].alias@),
                Some(r@[i].address),
                Some(r@[i].signature),
            ),
            forall|k: Seq<char>| #[trigger]
                self@.contains_key(k) && is_valid_view(self@[k]) ==> exists|i: int|
                    0 <= i < r@.len() && r@[i].symbol@ == k,
    {
        let ghost s = entry_views(self.entries@);
        let mut out: Vec<Route> = Vec::new();
        let mut i: usize = 0;
        while i < self.entries.len()
            invariant
                i <= self.entries@.len(),
                s == entry_views(self.entries@),
                forall|m: int|
                    0 <= m < out@.len() ==> self@.contains_key((#[trigger] out@[m]).symbol@)
                        && self@[out@[m].symbol@] == (
                    Some(out@[m].alias@),
                    Some(out@[m].address),
                    Some(out@[m].signature),
                ),
                forall|m: int|
                    0 <= m < i && is_valid_view(self@[#[trigger] s[m].0]) ==> exists|x: int|
                        0 <= x < out@.len() && out@[x].symbol@ == s[m].0,
            decreases self.entries@.len() - i,
        {
            let sym = &self.entries[i].0;
            assert(s[i as int].0 == sym@);
            let ghost old_out = out@;
            match self.get(sym) {
                Some(m) => {
                    match (&m.alias, m.address, m.signature) {
                        (Some(alias), Some(address), Some(signature)) => {
                            out.push(
                                Route {
                                    alias: alias.clone(),
                                    symbol: sym.clone(),
                                    address,
                                    signature,
                                },
                            );
                            assert(out@[out@.len() - 1].symbol@ == s[i as int].0);
                        },
                        _ => {},
                    }
                },
                None => {
                    proof {
                        self.lemma_entry_contained(i as int);
                    }
                },
            }
            proof {
                assert forall|m: int|
                    0 <= m < i + 1 && is_valid_view(self@[#[trigger] s[m].0]) implies exists|x: int|
                    0 <= x < out@.len() && out@[x].symbol@ == s[m].0 by {
                    if m < i {
                        let x = choose|x: int| 0 <= x < old_out.len() && old_out[x].symbol@ == s[m].0;
                        assert(out@[x] == old_out[x]);
                    } else {
                        assert(out@[out@.len() - 1].symbol@ == s[m].0);
                    }
                }
            }
            i = i + 1;
        }
        proof {
            assert forall|k: Seq<char>| #[trigger]
                self@.contains_key(k) && is_valid_view(self@[k]) implies exists|x: int|
                    0 <= x < out@.len() && out@[x].symbol@ == k by {
                lemma_table_map_key_position(s, k);
                let m = choose|m: int| 0 <= m < s.len() && (#[trigger] s[m]).0 == k;
                assert(is_valid_view(self@[s[m].0]));
            }
        }
        out
    }

    fn push_entry(&mut self, sym: String, m: Metadata)
        requires
            old(self).wf(),
            !old(self)@.contains_key(sym@),
        ensures
            final(self).wf(),
            final(self)@ == old(self)@.insert(sym@, m@),
            final(self).spec_len() == old(self).spec_len() + 1,
    {
        let ghost s = entry_views(self.entries@);
        proof {
            assert forall|i: int| 0 <= i < self.entries@.len() implies (
            #[trigger] self.entries@[i]).0@ != sym@ by {
                assert(s[i].0 == self.entries@[i].0@);
                lemma_last_position(s, i, self.entries@[i].0@);
            }
        }
        self.entries.push((sym, m));
        proof {
            assert(entry_views(self.entries@) =~= s.push((sym@, m@)));
            lemma_table_map_push(s, (sym@, m@));
        }
    }
}

/// A symbol in the map stands at some position.
proof fn lemma_table_map_key_position(s: Seq<(Seq<char>, ResolvedView)>, k: Seq<char>)
    ensures
        table_map(s).contains_key(k) ==> exists|m: int| 0 <= m < s.len() && (#[trigger] s[m]).0 == k,
    decreases s.len(),
{
    if s.len() > 0 {
        let d = s.drop_last();
        lemma_table_map_key_position(d, k);
        if table_map(d).contains_key(k) {
            let m = choose|m: int| 0 <= m < d.len() && (#[trigger] d[m]).0 == k;
            assert(s[m] == d[m]);
        }
        if s.last().0 == k {
            assert(s[s.len() - 1].0 == k);
        }
    }
}

/// A procedure that can be called: its alias, its export, where it is, how it is called.
#[derive(Debug, Clone)]
pub struct Route {
    pub alias: String,
    pub symbol: String,
    pub address: u64,
    pub signature: RemoteProcSignature,
}

/// There is a last position holding `k`, and the map at `k` is there.
proof fn lemma_last_position(s: Seq<(Seq<char>, ResolvedView)>, i: int, k: Seq<char>)
    requires
        0 <= i < s.len(),
        s[i].0 == k,
    ensures
        table_map(s).contains_key(k),
    decreases s.len(),
{
    if i == s.len() - 1 {
    } else {
        let d = s.drop_last();
        assert(d[i] == s[i]);
        lemma_last_position(d, i, k);
    }
}

/// Why a module's exports cannot be read.
#[derive(Debug, Clone, Copy, PartialEq, Eq, Structural)]
pub enum PayloadError {
    /// The image's export table cannot be parsed.
    ParseFailure,
}

/// Keeps the exports that have a UTF-8 name and a plain address, in order.
pub fn decode_exports(recs: &Vec<RawExport>) -> (r: Vec<Export>)
    ensures
        export_views(r@) == decoded_exports(recs@.map_values(|x: RawExport| x@)),
{
    let ghost v = recs@.map_values(|x: RawExport| x@);
    let mut out: Vec<Export> = Vec::new();
    let mut i: usize = 0;
    while i < recs.len()
        invariant
            i <= recs@.len(),
            v == recs@.map_values(|x: RawExport| x@),
            export_views(out@) == decoded_exports(v.subrange(0, i as int)),
        decreases recs@.len() - i,
    {
        let ghost before = out@;
        proof {
            let p = v.subrange(0, i + 1);
            assert(p.drop_last() =~= v.subrange(0, i as int));
            assert(p.last() == recs@[i as int]@);
        }
        let r = &recs[i];
        match (&r.name, r.address) {
            (Some(n), Some(a)) => match utf8_string(n) {
                Some(t) => {
                    out.push(Export { symbol: t, address: a });
                    assert(export_views(out@) =~= export_views(before).push((t@, a)));
                },
                None => {},
            },
            _ => {},
        }
        i = i + 1;
    }
    assert(v.subrange(0, recs@.len() as int) =~= v);
    out
}

/// Builds the symbol table: an entry for every export, with alias and
/// signature where a declaration names its symbol, and an entry without
/// address for every declared symbol that is not exported.
pub fn build_symbol_table(exports: &Vec<Export>, ids: &Vec<Identifier>) -> (t: SymbolTable)
    ensures
        t.wf(),
        t@ == symbol_table_spec(export_views(exports@), identifier_views(ids@)),
{
    let ghost e = export_views(exports@);
    let ghost d = identifier_views(ids@);
    let mut t = SymbolTable { entries: Vec::new() };
    proof {
        assert(entry_views(t.entries@) =~= Seq::empty());
    }
    let mut i: usize = 0;
    while i < exports.len()
        invariant
            i <= exports@.len(),
            t.wf(),
            e == export_views(exports@),
            d == identifier_views(ids@),
            forall|j: int| 0 <= j < i ==> t@.contains_key(#[trigger] e[j].0),
            forall|k: Seq<char>| #[trigger]
                t@.contains_key(k) ==> exported_address(e, k) is Some && resolved_entry(e, d, k)
                    == Some(t@[k]),
        decreases exports@.len() - i,
    {
        let sym = &exports[i].symbol;
        assert(e[i as int].0 == sym@);
        if t.get(sym).is_none() {
            proof {
                lemma_exported_address_some(e, sym@);
            }
            let a = exported_address_of(exports, sym);
            let a = match a {
                Some(a) => a,
                None => 0,
            };
            let m = match find_declaration(ids, sym) {
                Some(k) => Metadata {
                    alias: Some(ids[k].name.clone()),
                    address: Some(a),
                    signature: Some(ids[k].signature),
                },
                None => Metadata { alias: None, address: Some(a), signature: None },
            };
            t.push_entry(sym.clone(), m);
        }
        i = i + 1;
    }
    let mut j: usize = 0;
    while j < ids.len()
        invariant
            j <= ids@.len(),
            t.wf(),
            e == export_views(exports@),
            d == identifier_views(ids@),
            forall|m: int| 0 <= m < e.len() ==> t@.contains_key(#[trigger] e[m].0),
            forall|m: int| 0 <= m < j ==> t@.contains_key(#[trigger] d[m].1),
            forall|k: Seq<char>| #[trigger]
                t@.contains_key(k) ==> resolved_entry(e, d, k) == Some(t@[k]),
        decreases ids@.len() - j,
    {
        let sym = &ids[j].symbol;
        assert(d[j as int].1 == sym@);
        if t.get(sym).is_none() {
            proof {
                lemma_exported_address_some(e, sym@);
                if exported_address(e, sym@) is Some {
                    let m = choose|m: int| 0 <= m < e.len() && (#[trigger] e[m]).0 == sym@;
                    assert(t@.contains_key(e[m].0));
                }
            }
            let m = match find_declaration(ids, sym) {
                Some(k) => Metadata {
                    alias: Some(ids[k].name.clone()),
                    address: None,
                    signature: Some(ids[k].signature),
                },
                None => Metadata { alias: None, address: None, signature: None },
            };
            proof {
                lemma_declaration_some(d, sym@);
            }
            t.push_entry(sym.clone(), m);
        }
        j = j + 1;
    }
    proof {
        let spec = symbol_table_spec(e, d);
        assert forall|k: Seq<char>| #[trigger] t@.contains_key(k) <==> spec.contains_key(k) by {
            if spec.contains_key(k) {
                lemma_exported_address_some(e, k);
                lemma_declaration_some(d, k);
                if exported_address(e, k) is Some {
                    let m = choose|m: int| 0 <= m < e.len() && (#[trigger] e[m]).0 == k;
                    assert(t@.contains_key(e[m].0));
                } else {
                    let m = choose|m: int| 0 <= m < d.len() && (#[trigger] d[m]).1 == k;
                    assert(t@.contains_key(d[m].1));
                }
            }
        }
        assert(t@ =~= spec);
    }
    t
}

/// Reads a module image's exports and matches them against the declared
/// identifiers. Fails exactly when the image cannot be parsed.
pub fn analyze_payload(data: &Vec<u8>, ids: &Vec<Identifier>) -> (r: Result<
    SymbolTable,
    PayloadError,
>)
    ensures
        match export_records_of(data@) {
            None => r == Err::<SymbolTable, PayloadError>(PayloadError::ParseFailure),
            Some(recs) => r is Ok && r->Ok_0.wf() && r->Ok_0@ == symbol_table_spec(
                decoded_exports(recs),
                identifier_views(ids@),
            ),
        },
{
    match read_export_records(data.as_slice()) {
        Ok(recs) => {
            let exports = decode_exports(&recs);
            Ok(build_symbol_table(&exports, ids))
        },
        Err(_) => Err(PayloadError::ParseFailure),
    }
}

/// A declared identifier whose symbol is exported resolves to a valid entry
/// that carries the exported address (the last one, where the symbol repeats).
pub proof fn lemma_declared_export_is_valid(
    exports: Seq<ExportView>,
    ids: Seq<IdentifierView>,
    j: int,
    k: int,
)
    requires
        0 <= j < ids.len(),
        0 <= k < exports.len(),
        exports[k].0 == ids[j].1,
    ensures
        symbol_table_spec(exports, ids).contains_key(ids[j].1),
        is_valid_view(symbol_table_spec(exports, ids)[ids[j].1]),
        symbol_table_spec(exports, ids)[ids[j].1].1 == exported_address(exports, ids[j].1),
        (forall|m: int| 0 <= m < exports.len() && (#[trigger] exports[m]).0 == ids[j].1 ==> m == k)
            ==> symbol_table_spec(exports, ids)[ids[j].1].1 == Some(exports[k].1),
{
    lemma_exported_address_some(exports, ids[j].1);
    lemma_declaration_some(ids, ids[j].1);
    if forall|m: int| 0 <= m < exports.len() && (#[trigger] exports[m]).0 == ids[j].1 ==> m == k {
        lemma_unique_export_address(exports, k);
    }
}

/// Where a symbol is exported once, that export's address is the one found.
proof fn lemma_unique_export_address(exports: Seq<ExportView>, k: int)
    requires
        0 <= k < exports.len(),
        forall|m: int| 0 <= m < exports.len() && (#[trigger] exports[m]).0 == exports[k].0 ==> m == k,
    ensures
        exported_address(exports, exports[k].0) == Some(exports[k].1),
    decreases exports.len(),
{
    if k < exports.len() - 1 {
        let d = exports.drop_last();
        assert forall|m: int| 0 <= m < d.len() && (#[trigger] d[m]).0 == d[k].0 implies m == k by {
            assert(exports[m] == d[m]);
        }
        assert(exports.last().0 != exports[k].0);
        lemma_unique_export_address(d, k);
    }
}

/// A declared identifier whose symbol is not exported keeps an entry, without
/// address and not valid.
pub proof fn lemma_unexported_declaration_is_kept(
    exports: Seq<ExportView>,
    ids: Seq<IdentifierView>,
    j: int,
)
    requires
        0 <= j < ids.len(),
        forall|k: int| 0 <= k < exports.len() ==> (#[trigger] exports[k]).0 != ids[j].1,
    ensures
        symbol_table_spec(exports, ids).contains_key(ids[j].1),
        symbol_table_spec(exports, ids)[ids[j].1].1 is None,
        !is_valid_view(symbol_table_spec(exports, ids)[ids[j].1]),
{
    lemma_exported_address_some(exports, ids[j].1);
    lemma_declaration_some(ids, ids[j].1);
}

} // verus!
