//! Units, their staging builder, and the tagged unit database.
use vstd::prelude::*;
use crate::config::strs_of;
use crate::lexorder::{lex_less, lex_lt, lemma_lex_irreflexive, lemma_lex_total, lemma_lex_transitive};
use crate::text::owned;

verus! {

/// The physical category of a unit; only units of one category convert into each other.
#[derive(Debug, Clone, Copy, PartialEq, Eq, Structural)]
pub enum UnitType {
    Area,
    Energy,
    Force,
    FuelEconomy,
    Length,
    Mass,
    Power,
    Pressure,
    Speed,
    Temperature,
    Torque,
    Volume,
}

impl UnitType {
    /// The category's name as written in a units file.
    pub open spec fn spec_name(self) -> Seq<char> {
        match self {
            UnitType::Area => "area"@,
            UnitType::Energy => "energy"@,
            UnitType::Force => "force"@,
            UnitType::FuelEconomy => "fuel economy"@,
            UnitType::Length => "length"@,
            UnitType::Mass => "mass"@,
            UnitType::Power => "power"@,
            UnitType::Pressure => "pressure"@,
            UnitType::Speed => "speed"@,
            UnitType::Temperature => "temperature"@,
            UnitType::Torque => "torque"@,
            UnitType::Volume => "volume"@,
        }
    }

    pub fn name(&self) -> (r: &'static str)
        ensures
            r@ == self.spec_name(),
    {
        match self {
            UnitType::Area => "area",
            UnitType::Energy => "energy",
            UnitType::Force => "force",
            UnitType::FuelEconomy => "fuel economy",
            UnitType::Length => "length",
            UnitType::Mass => "mass",
            UnitType::Power => "power",
            UnitType::Pressure => "pressure",
            UnitType::Speed => "speed",
            UnitType::Temperature => "temperature",
            UnitType::Torque => "torque",
            UnitType::Volume => "volume",
        }
    }
}

/// A unit as the database holds it. The numeric fields keep the float
/// literal of the units file; the arithmetic on them is done by the caller.
#[derive(Debug, Clone)]
pub struct Unit {
    pub name: String,
    /// Further names of the unit, besides `name`.
    pub aliases: Vec<String>,
    /// Namespaces the unit registers under; none means the default one.
    pub tags: Vec<String>,
    pub unit_type: UnitType,
    pub conv_factor: String,
    pub zero_point: String,
    pub dimensions: String,
    pub inverse: String,
}

impl Unit {
    /// Every name of the unit: its own name first, then its aliases.
    pub open spec fn spec_names(&self) -> Seq<Seq<char>> {
        seq![self.name@] + strs_of(self.aliases@)
    }

    /// A unit with no name yet and the default properties.
    pub fn new() -> (r: Unit)
        ensures
            r.name@.len() == 0,
            r.aliases@.len() == 0,
            r.tags@.len() == 0,
            r.unit_type == UnitType::Area,
            r.conv_factor@ == "1"@,
            r.zero_point@ == "0"@,
            r.dimensions@ == "1"@,
            r.inverse@ == "0"@,
    {
        Unit {
            name: String::new(),
            aliases: Vec::new(),
            tags: Vec::new(),
            unit_type: UnitType::Area,
            conv_factor: owned("1"),
            zero_point: owned("0"),
            dimensions: owned("1"),
            inverse: owned("0"),
        }
    }

    pub fn has_aliases(&self) -> (r: bool)
        ensures
            r == (self.aliases@.len() > 0),
    {
        self.aliases.len() > 0
    }

    pub fn has_tags(&self) -> (r: bool)
        ensures
            r == (self.tags@.len() > 0),
    {
        self.tags.len() > 0
    }
}

/// One namespace: the aliases registered under a tag, each with the index of its unit.
#[derive(Debug, Clone)]
pub struct Namespace {
    pub tag: String,
    pub aliases: Vec<String>,
    pub targets: Vec<usize>,
}

/// The unit that alias `a` names among `al` (paired with `tg`); the latest entry wins.
pub open spec fn ns_get(al: Seq<String>, tg: Seq<usize>, a: Seq<char>) -> Option<usize>
    decreases al.len(),
{
    if al.len() == 0 || tg.len() == 0 {
        None
    } else if al.last()@ == a {
        Some(tg.last())
    } else {
        ns_get(al.drop_last(), tg.drop_last(), a)
    }
}

/// Position of the namespace tagged `t`, or -1.
pub open spec fn ns_index(nss: Seq<Namespace>, t: Seq<char>) -> int
    decreases nss.len(),
{
    if nss.len() == 0 {
        -1
    } else if nss.last().tag@ == t {
        nss.len() - 1
    } else {
        ns_index(nss.drop_last(), t)
    }
}

proof fn lemma_ns_index_range(nss: Seq<Namespace>, t: Seq<char>)
    ensures
        -1 <= ns_index(nss, t) < nss.len(),
        ns_index(nss, t) >= 0 ==> nss[ns_index(nss, t)].tag@ == t,
        ns_index(nss, t) < 0 ==> forall|i: int| 0 <= i < nss.len() ==> nss[i].tag@ != t,
    decreases nss.len(),
{
    if nss.len() > 0 && nss.last().tag@ != t {
        lemma_ns_index_range(nss.drop_last(), t);
        assert forall|i: int| 0 <= i < nss.len() - 1 implies nss[i] == nss.drop_last()[i] by {}
    }
}

proof fn lemma_ns_index_unique(nss: Seq<Namespace>, i: int)
    requires
        0 <= i < nss.len(),
        forall|j: int, k: int| 0 <= j < k < nss.len() ==> nss[j].tag@ != nss[k].tag@,
    ensures
        ns_index(nss, nss[i].tag@) == i,
    decreases nss.len(),
{
    if i < nss.len() - 1 {
        lemma_ns_index_unique(nss.drop_last(), i);
    }
}

/// Two units could not both be registered: `alias` is taken in `namespace`.
#[derive(Debug, Clone)]
pub struct NameCollision {
    pub namespace: String,
    pub alias: String,
}

/// The unit table: units in the order they were added, and the namespaces
/// that map their names to them.
#[derive(Debug)]
pub struct UnitDatabase {
    pub namespaces: Vec<Namespace>,
    pub units: Vec<Unit>,
    pub preferred_namespace: String,
    pub default_namespace: String,
}

impl UnitDatabase {
    pub open spec fn spec_has_tag(&self, t: Seq<char>) -> bool {
        ns_index(self.namespaces@, t) >= 0
    }

    /// The unit that alias `a` names in the namespace tagged `t`, if any.
    pub open spec fn spec_lookup(&self, t: Seq<char>, a: Seq<char>) -> Option<usize> {
        let i = ns_index(self.namespaces@, t);
        if i >= 0 {
            ns_get(self.namespaces@[i].aliases@, self.namespaces@[i].targets@, a)
        } else {
            None
        }
    }

    pub open spec fn wf(&self) -> bool {
        &&& forall|i: int| 0 <= i < self.namespaces@.len() ==> self.namespaces@[i].aliases@.len()
            == self.namespaces@[i].targets@.len()
        &&& forall|i: int, j: int|
            0 <= i < self.namespaces@.len() && 0 <= j < self.namespaces@[i].targets@.len()
                ==> self.namespaces@[i].targets@[j] < self.units@.len()
        &&& forall|i: int, j: int|
            0 <= i < j < self.namespaces@.len() ==> self.namespaces@[i].tag@ != self.namespaces@[j].tag@
        &&& self.spec_has_tag(self.default_namespace@)
        &&& self.spec_has_tag(self.preferred_namespace@)
    }

    /// The namespaces a unit joins: its tags, or the default one when it has none.
    pub open spec fn target_tags(&self, u: Unit) -> Seq<Seq<char>> {
        if u.tags@.len() > 0 {
            strs_of(u.tags@)
        } else {
            seq![self.default_namespace@]
        }
    }

    /// Name `a` is already taken in namespace `t`.
    pub open spec fn taken(&self, t: Seq<char>, a: Seq<char>) -> bool {
        self.spec_lookup(t, a) is Some
    }

    /// `t` is a registered tag, neither the preferred nor the default one, under which `name` is found.
    pub open spec fn other_hit(&self, t: Seq<char>, name: Seq<char>) -> bool {
        &&& self.spec_has_tag(t)
        &&& t != self.preferred_namespace@
        &&& t != self.default_namespace@
        &&& self.spec_lookup(t, name) is Some
    }

    /// The lexically first tag among the other hits for `name`.
    pub open spec fn first_other(&self, name: Seq<char>) -> Seq<char> {
        choose|t: Seq<char>|
            self.other_hit(t, name) && forall|u: Seq<char>| self.other_hit(u, name) ==> !lex_lt(u, t)
    }

    /// Resolution of `name`: in the namespace `tag` only, when given; else the
    /// preferred namespace, then the default one, then the others in lexical order of their tags.
    pub open spec fn query_spec(&self, name: Seq<char>, tag: Option<Seq<char>>) -> Option<usize> {
        match tag {
            Some(t) => self.spec_lookup(t, name),
            None => if self.spec_lookup(self.preferred_namespace@, name) is Some {
                self.spec_lookup(self.preferred_namespace@, name)
            } else if self.spec_lookup(self.default_namespace@, name) is Some {
                self.spec_lookup(self.default_namespace@, name)
            } else if exists|t: Seq<char>| self.other_hit(t, name) {
                self.spec_lookup(self.first_other(name), name)
            } else {
                None
            },
        }
    }

    /// An empty database whose preferred namespace is `preferred` (the default
    /// namespace when not given).
    pub fn new(preferred: Option<String>) -> (r: UnitDatabase)
        ensures
            r.wf(),
            r.units@.len() == 0,
            r.default_namespace@ == "default"@,
            r.preferred_namespace@ == (match preferred {
                Some(p) => p@,
                None => "default"@,
            }),
            forall|t: Seq<char>, a: Seq<char>| r.spec_lookup(t, a) is None,
            forall|t: Seq<char>| r.spec_has_tag(t) <==> (t == r.default_namespace@ || t == r.preferred_namespace@),
    {
        let default_namespace = owned("default");
        let preferred_namespace = match preferred {
            Some(p) => p,
            None => default_namespace.clone(),
        };
        let mut namespaces: Vec<Namespace> = Vec::new();
        namespaces.push(Namespace { tag: default_namespace.clone(), aliases: Vec::new(), targets: Vec::new() });
        if !(preferred_namespace == default_namespace) {
            namespaces.push(Namespace { tag: preferred_namespace.clone(), aliases: Vec::new(), targets: Vec::new() });
        }
        let r = UnitDatabase { namespaces, units: Vec::new(), preferred_namespace, default_namespace };
        proof {
            let nss = r.namespaces@;
            assert(nss.drop_last().drop_last() =~= Seq::<Namespace>::empty() || nss.drop_last() =~= Seq::<Namespace>::empty());
            assert forall|t: Seq<char>, a: Seq<char>| r.spec_lookup(t, a) is None by {
                lemma_ns_index_range(nss, t);
            }
            assert forall|t: Seq<char>| r.spec_has_tag(t) <==> (t == r.default_namespace@ || t == r.preferred_namespace@) by {
                lemma_ns_index_range(nss, t);
                if nss.len() == 2 {
                    assert(nss.drop_last().last() == nss[0]);
                }
            }
        }
        r
    }
}


proof fn lemma_ns_get_push(al: Seq<String>, tg: Seq<usize>, x: String, k: usize, a: Seq<char>)
    requires
        al.len() == tg.len(),
    ensures
        ns_get(al.push(x), tg.push(k), a) == if x@ == a { Some(k) } else { ns_get(al, tg, a) },
{
    assert(al.push(x).drop_last() =~= al);
    assert(tg.push(k).drop_last() =~= tg);
}

proof fn lemma_ns_get_range(al: Seq<String>, tg: Seq<usize>, a: Seq<char>, bound: nat)
    requires
        al.len() == tg.len(),
        forall|j: int| 0 <= j < tg.len() ==> tg[j] < bound,
    ensures
        ns_get(al, tg, a) is Some ==> ns_get(al, tg, a)->0 < bound,
    decreases al.len(),
{
    if al.len() > 0 && al.last()@ != a {
        lemma_ns_get_range(al.drop_last(), tg.drop_last(), a, bound);
    }
}

proof fn lemma_ns_index_push(nss: Seq<Namespace>, x: Namespace, t: Seq<char>)
    ensures
        ns_index(nss.push(x), t) == if x.tag@ == t { nss.len() as int } else { ns_index(nss, t) },
{
    assert(nss.push(x).drop_last() =~= nss);
}

proof fn lemma_ns_index_update(nss: Seq<Namespace>, i: int, x: Namespace, t: Seq<char>)
    requires
        0 <= i < nss.len(),
        x.tag@ == nss[i].tag@,
    ensures
        ns_index(nss.update(i, x), t) == ns_index(nss, t),
    decreases nss.len(),
{
    if nss.len() > 0 {
        if i < nss.len() - 1 {
            assert(nss.update(i, x).drop_last() =~= nss.drop_last().update(i, x));
            if nss.last().tag@ != t {
                lemma_ns_index_update(nss.drop_last(), i, x, t);
            }
        } else {
            assert(nss.update(i, x).drop_last() =~= nss.drop_last());
        }
    }
}

fn ns_find(ns: &Namespace, a: &String) -> (r: Option<usize>)
    requires
        ns.aliases@.len() == ns.targets@.len(),
    ensures
        r == ns_get(ns.aliases@, ns.targets@, a@),
{
    let mut i: usize = ns.aliases.len();
    assert(ns.aliases@.subrange(0, i as int) =~= ns.aliases@);
    assert(ns.targets@.subrange(0, i as int) =~= ns.targets@);
    while i > 0
        invariant
            i <= ns.aliases@.len(),
            ns.aliases@.len() == ns.targets@.len(),
            ns_get(ns.aliases@, ns.targets@, a@) == ns_get(
                ns.aliases@.subrange(0, i as int),
                ns.targets@.subrange(0, i as int),
                a@,
            ),
        decreases i,
    {
        let ghost al = ns.aliases@.subrange(0, i as int);
        let ghost tg = ns.targets@.subrange(0, i as int);
        assert(al.drop_last() =~= ns.aliases@.subrange(0, i - 1));
        assert(tg.drop_last() =~= ns.targets@.subrange(0, i - 1));
        if ns.aliases[i - 1] == *a {
            return Some(ns.targets[i - 1]);
        }
        i = i - 1;
    }
    None
}

fn ns_insert(ns: &mut Namespace, a: String, k: usize)
    ensures
        final(ns).tag == old(ns).tag,
        final(ns).aliases@ == old(ns).aliases@.push(a),
        final(ns).targets@ == old(ns).targets@.push(k),
{
    ns.aliases.push(a);
    ns.targets.push(k);
}

impl UnitDatabase {
    fn find_ns(&self, t: &String) -> (r: Option<usize>)
        ensures
            match r {
                Some(i) => ns_index(self.namespaces@, t@) == i as int,
                None => ns_index(self.namespaces@, t@) < 0,
            },
    {
        let mut i: usize = self.namespaces.len();
        assert(self.namespaces@.subrange(0, i as int) =~= self.namespaces@);
        while i > 0
            invariant
                i <= self.namespaces@.len(),
                ns_index(self.namespaces@, t@) == ns_index(self.namespaces@.subrange(0, i as int), t@),
            decreases i,
        {
            let ghost sub = self.namespaces@.subrange(0, i as int);
            assert(sub.drop_last() =~= self.namespaces@.subrange(0, i - 1));
            if self.namespaces[i - 1].tag == *t {
                return Some(i - 1);
            }
            i = i - 1;
        }
        None
    }

    fn lookup(&self, t: &String, a: &String) -> (r: Option<usize>)
        requires
            self.wf(),
        ensures
            r == self.spec_lookup(t@, a@),
    {
        proof {
            lemma_ns_index_range(self.namespaces@, t@);
        }
        match self.find_ns(t) {
            Some(i) => ns_find(&self.namespaces[i], a),
            None => None,
        }
    }

    /// Finds the unit that `name` resolves to: only in namespace `tag` when
    /// one is given, else in the preferred namespace, then the default one,
    /// then the others in lexical order of their tags. Gives the unit's index.
    pub fn query(&self, name: &String, tag: Option<&String>) -> (r: Option<usize>)
        requires
            self.wf(),
        ensures
            r == self.query_spec(
                name@,
                match tag {
                    Some(t) => Some(t@),
                    None => None,
                },
            ),
            r is Some ==> r->0 < self.units@.len(),
    {
        proof {
            assert forall|t: Seq<char>| #[trigger] self.spec_lookup(t, name@) is Some implies self.spec_lookup(t, name@)->0 < self.units@.len() by {
                lemma_ns_index_range(self.namespaces@, t);
                let i = ns_index(self.namespaces@, t);
                if i >= 0 {
                    lemma_ns_get_range(self.namespaces@[i].aliases@, self.namespaces@[i].targets@, name@, self.units@.len());
                }
            }
        }
        if let Some(t) = tag {
            return self.lookup(t, name);
        }
        let p = self.lookup(&self.preferred_namespace, name);
        if p.is_some() {
            return p;
        }
        let d = self.lookup(&self.default_namespace, name);
        if d.is_some() {
            return d;
        }
        let n = self.namespaces.len();
        let mut best: Option<usize> = None;
        let mut best_unit: usize = 0;
        let mut i: usize = 0;
        while i < n
            invariant
                self.wf(),
                n == self.namespaces@.len(),
                i <= n,
                best is None ==> forall|j: int| 0 <= j < i ==> !self.other_hit(#[trigger] self.namespaces@[j].tag@, name@),
                best is Some ==> {
                    let b = best->0 as int;
                    &&& 0 <= b < i
                    &&& self.other_hit(self.namespaces@[b].tag@, name@)
                    &&& self.spec_lookup(self.namespaces@[b].tag@, name@) == Some(best_unit)
                    &&& forall|j: int|
                        0 <= j < i && self.other_hit(#[trigger] self.namespaces@[j].tag@, name@)
                            ==> !lex_lt(self.namespaces@[j].tag@, self.namespaces@[b].tag@)
                },
            decreases n - i,
        {
            let ns = &self.namespaces[i];
            proof {
                lemma_ns_index_unique(self.namespaces@, i as int);
            }
            if !(ns.tag == self.preferred_namespace) && !(ns.tag == self.default_namespace) {
                let hit = ns_find(ns, name);
                if let Some(u) = hit {
                    let better = match best {
                        None => true,
                        Some(b) => lex_less(&ns.tag, &self.namespaces[b].tag),
                    };
                    if better {
                        proof {
                            if best is Some {
                                let b = best->0 as int;
                                let tb = self.namespaces@[b].tag@;
                                let ti = self.namespaces@[i as int].tag@;
                                assert forall|j: int|
                                    0 <= j < i + 1 && self.other_hit(#[trigger] self.namespaces@[j].tag@, name@)
                                        implies !lex_lt(self.namespaces@[j].tag@, ti) by {
                                    if j == i {
                                        lemma_lex_irreflexive(ti);
                                    } else if lex_lt(self.namespaces@[j].tag@, ti) {
                                        lemma_lex_transitive(self.namespaces@[j].tag@, ti, tb);
                                    }
                                }
                            } else {
                                lemma_lex_irreflexive(self.namespaces@[i as int].tag@);
                            }
                        }
                        best = Some(i);
                        best_unit = u;
                    }
                }
            }
            i = i + 1;
        }
        proof {
            assert forall|t: Seq<char>| self.other_hit(t, name@) implies exists|j: int| 0 <= j < n && #[trigger] self.namespaces@[j].tag@ == t by {
                lemma_ns_index_range(self.namespaces@, t);
            }
            if best is None {
                assert forall|t: Seq<char>| !self.other_hit(t, name@) by {
                    lemma_ns_index_range(self.namespaces@, t);
                    if self.other_hit(t, name@) {
                        let j = ns_index(self.namespaces@, t);
                        assert(self.namespaces@[j].tag@ == t);
                    }
                }
            } else {
                let b = best->0 as int;
                let tb = self.namespaces@[b].tag@;
                assert forall|u: Seq<char>| self.other_hit(u, name@) implies !lex_lt(u, tb) by {
                    lemma_ns_index_range(self.namespaces@, u);
                    let j = ns_index(self.namespaces@, u);
                    assert(self.namespaces@[j].tag@ == u);
                }
                let c = self.first_other(name@);
                assert(self.other_hit(c, name@));
                if c != tb {
                    lemma_lex_total(c, tb);
                }
            }
        }
        match best {
            Some(_) => Some(best_unit),
            None => None,
        }
    }
}

/// `a` is among the first `n` texts of `s`.
pub open spec fn among(s: Seq<Seq<char>>, n: int, a: Seq<char>) -> bool {
    exists|w: int| 0 <= w < n && #[trigger] s[w] == a
}

proof fn lemma_among_step(s: Seq<Seq<char>>, n: int, a: Seq<char>)
    requires
        0 <= n < s.len(),
    ensures
        among(s, n + 1, a) <==> (among(s, n, a) || s[n] == a),
{
    if s[n] == a {
        assert(among(s, n + 1, a));
    }
}

proof fn lemma_among_all(s: Seq<Seq<char>>, a: Seq<char>)
    ensures
        among(s, s.len() as int, a) <==> s.contains(a),
{
}

/// Copies of the strings of `v`.
pub fn copy_strings(v: &Vec<String>) -> (r: Vec<String>)
    ensures
        r@ == v@,
{
    let mut out: Vec<String> = Vec::new();
    let mut i: usize = 0;
    while i < v.len()
        invariant
            i <= v@.len(),
            out@ == v@.subrange(0, i as int),
        decreases v.len() - i,
    {
        out.push(v[i].clone());
        i = i + 1;
        assert(out@ =~= v@.subrange(0, i as int));
    }
    assert(v@.subrange(0, v@.len() as int) =~= v@);
    out
}

/// What adding `u` to `db` does: success exactly when none of its names is
/// taken in its namespaces, and then `u` is registered; otherwise `db2` is
/// `db` unchanged and the first taken namespace and name are reported.
pub open spec fn add_outcome(db: UnitDatabase, u: Unit, db2: UnitDatabase, r: Result<(), NameCollision>) -> bool {
    &&& r is Ok <==> db.fits(u)
    &&& r is Err ==> db2 == db && db.first_collision(u, r->Err_0.namespace@, r->Err_0.alias@)
    &&& r is Ok ==> db2.added(db, u)
}

impl UnitDatabase {
    /// `(t, a)` is the first taken pair of the unit's namespaces and names,
    /// namespaces in order and, within one, names in order.
    pub open spec fn first_collision(&self, u: Unit, t: Seq<char>, a: Seq<char>) -> bool {
        let tt = self.target_tags(u);
        let nn = u.spec_names();
        exists|i: int, j: int|
            #![trigger tt[i], nn[j]]
            0 <= i < tt.len() && 0 <= j < nn.len() && tt[i] == t && nn[j] == a && self.taken(t, a) && (forall|
                i2: int,
                j2: int,
            | 0 <= i2 < i && 0 <= j2 < nn.len() ==> !self.taken(tt[i2], nn[j2])) && (forall|j2: int|
                0 <= j2 < j ==> !self.taken(tt[i], nn[j2]))
    }

    /// No name of the unit is taken in any namespace it would join.
    pub open spec fn fits(&self, u: Unit) -> bool {
        forall|i: int, j: int|
            0 <= i < self.target_tags(u).len() && 0 <= j < u.spec_names().len() ==> !self.taken(
                self.target_tags(u)[i],
                u.spec_names()[j],
            )
    }

    /// The database after `u` was registered as unit number `k`.
    pub open spec fn added(&self, old_db: UnitDatabase, u: Unit) -> bool {
        &&& self.units@ == old_db.units@.push(u)
        &&& self.preferred_namespace == old_db.preferred_namespace
        &&& self.default_namespace == old_db.default_namespace
        &&& forall|t: Seq<char>, a: Seq<char>|
            #[trigger] self.spec_lookup(t, a) == if old_db.target_tags(u).contains(t) && u.spec_names().contains(a) {
                Some(old_db.units@.len() as usize)
            } else {
                old_db.spec_lookup(t, a)
            }
        &&& forall|t: Seq<char>|
            #[trigger] self.spec_has_tag(t) <==> (old_db.spec_has_tag(t) || old_db.target_tags(u).contains(t))
    }

    /// Registers `unit` under each of its namespaces (its tags, or the default
    /// namespace), by its name and each alias. If any of those names is
    /// already taken in one of those namespaces the database is left as it
    /// was and the first such namespace and name are reported.
    pub fn add(&mut self, unit: Unit) -> (r: Result<(), NameCollision>)
        requires
            old(self).wf(),
            old(self).units@.len() < usize::MAX,
        ensures
            final(self).wf(),
            add_outcome(*old(self), unit, *final(self), r),
    {
        let tags: Vec<String> = if unit.tags.len() > 0 {
            copy_strings(&unit.tags)
        } else {
            let mut d: Vec<String> = Vec::new();
            d.push(self.default_namespace.clone());
            d
        };
        let mut names: Vec<String> = Vec::new();
        names.push(unit.name.clone());
        let mut m: usize = 0;
        while m < unit.aliases.len()
            invariant
                m <= unit.aliases@.len(),
                names@ == seq![unit.name] + unit.aliases@.subrange(0, m as int),
            decreases unit.aliases.len() - m,
        {
            names.push(unit.aliases[m].clone());
            m = m + 1;
            assert(names@ =~= seq![unit.name] + unit.aliases@.subrange(0, m as int));
        }
        let ghost tt = self.target_tags(unit);
        let ghost nn = unit.spec_names();
        proof {
            assert(unit.aliases@.subrange(0, m as int) =~= unit.aliases@);
            assert(strs_of(names@) =~= nn);
            if unit.tags@.len() > 0 {
                assert(strs_of(tags@) =~= tt);
            } else {
                assert(strs_of(tags@) =~= tt);
            }
        }
        let mut i: usize = 0;
        while i < tags.len()
            invariant
                self.wf(),
                strs_of(tags@) == tt,
                strs_of(names@) == nn,
                tt == self.target_tags(unit),
                nn == unit.spec_names(),
                i <= tags@.len(),
                forall|i2: int, j2: int| 0 <= i2 < i && 0 <= j2 < nn.len() ==> !self.taken(tt[i2], nn[j2]),
            decreases tags.len() - i,
        {
            let mut j: usize = 0;
            while j < names.len()
                invariant
                    self.wf(),
                    strs_of(tags@) == tt,
                    strs_of(names@) == nn,
                    tt == self.target_tags(unit),
                    nn == unit.spec_names(),
                    i < tags@.len(),
                    j <= names@.len(),
                    forall|i2: int, j2: int| 0 <= i2 < i && 0 <= j2 < nn.len() ==> !self.taken(tt[i2], nn[j2]),
                    forall|j2: int| 0 <= j2 < j ==> !self.taken(tt[i as int], nn[j2]),
                decreases names.len() - j,
            {
                assert(tt[i as int] == tags@[i as int]@ && nn[j as int] == names@[j as int]@);
                if self.lookup(&tags[i], &names[j]).is_some() {
                    proof {
                        let ii = i as int;
                        let jj = j as int;
                        assert(self.taken(tt[ii], nn[jj]));
                        assert(0 <= ii < tt.len() && 0 <= jj < nn.len() && tt[ii] == tt[ii] && nn[jj] == nn[jj]);
                        assert(self.first_collision(unit, tt[ii], nn[jj]));
                    }
                    return Err(NameCollision { namespace: tags[i].clone(), alias: names[j].clone() });
                }
                j = j + 1;
            }
            i = i + 1;
        }
        let ghost old_db = *self;
        let k = self.units.len();
        self.units.push(unit);
        let mut i: usize = 0;
        while i < tags.len()
            invariant
                strs_of(tags@) == tt,
                strs_of(names@) == nn,
                i <= tags@.len(),
                old_db.wf(),
                old_db.fits(unit),
                tt == old_db.target_tags(unit),
                nn == unit.spec_names(),
                k == old_db.units@.len(),
                self.units@ == old_db.units@.push(unit),
                self.preferred_namespace == old_db.preferred_namespace,
                self.default_namespace == old_db.default_namespace,
                forall|n: int| 0 <= n < self.namespaces@.len() ==> self.namespaces@[n].aliases@.len()
                    == self.namespaces@[n].targets@.len(),
                forall|n: int, j: int|
                    0 <= n < self.namespaces@.len() && 0 <= j < self.namespaces@[n].targets@.len()
                        ==> self.namespaces@[n].targets@[j] < self.units@.len(),
                forall|n: int, j: int|
                    0 <= n < j < self.namespaces@.len() ==> self.namespaces@[n].tag@ != self.namespaces@[j].tag@,
                forall|t: Seq<char>, a: Seq<char>|
                    #[trigger] self.spec_lookup(t, a) == if among(tt, i as int, t) && nn.contains(a) {
                        Some(k)
                    } else {
                        old_db.spec_lookup(t, a)
                    },
                forall|t: Seq<char>|
                    #[trigger] self.spec_has_tag(t) <==> (old_db.spec_has_tag(t) || among(tt, i as int, t)),
            decreases tags.len() - i,
        {
            let ghost before = *self;
            let ghost ti = tt[i as int];
            assert(tags@[i as int]@ == ti);
            let idx: usize = match self.find_ns(&tags[i]) {
                Some(x) => x,
                None => {
                    let ns = Namespace { tag: tags[i].clone(), aliases: Vec::new(), targets: Vec::new() };
                    self.namespaces.push(ns);
                    proof {
                        lemma_ns_index_range(before.namespaces@, ti);
                        assert forall|t: Seq<char>, a: Seq<char>| #[trigger] self.spec_lookup(t, a) == before.spec_lookup(t, a) by {
                            lemma_ns_index_push(before.namespaces@, ns, t);
                            lemma_ns_index_range(before.namespaces@, t);
                            let bi = ns_index(before.namespaces@, t);
                            if t == ti {
                                assert(self.namespaces@[before.namespaces@.len() as int] == ns);
                                assert(ns.aliases@.len() == 0);
                            } else if bi >= 0 {
                                assert(self.namespaces@[bi] == before.namespaces@[bi]);
                            }
                        }
                        assert forall|t: Seq<char>| #[trigger] self.spec_has_tag(t) <==> (before.spec_has_tag(t) || t == ti) by {
                            lemma_ns_index_push(before.namespaces@, ns, t);
                        }
                        assert forall|n: int, j: int|
                            0 <= n < j < self.namespaces@.len() implies self.namespaces@[n].tag@ != self.namespaces@[j].tag@ by {
                            if j == self.namespaces@.len() - 1 {
                                assert(self.namespaces@[n] == before.namespaces@[n]);
                            }
                        }
                    }
                    self.namespaces.len() - 1
                },
            };
            proof {
                lemma_ns_index_range(self.namespaces@, ti);
            }
            let ghost mid = *self;
            let mut j: usize = 0;
            while j < names.len()
                invariant
                    strs_of(tags@) == tt,
                    strs_of(names@) == nn,
                    i < tags@.len(),
                    j <= names@.len(),
                    ti == tt[i as int],
                    idx < self.namespaces@.len(),
                    ns_index(self.namespaces@, ti) == idx as int,
                    old_db.wf(),
                    old_db.fits(unit),
                    tt == old_db.target_tags(unit),
                    nn == unit.spec_names(),
                    k == old_db.units@.len(),
                    self.units@ == old_db.units@.push(unit),
                    self.preferred_namespace == old_db.preferred_namespace,
                    self.default_namespace == old_db.default_namespace,
                    forall|n: int| 0 <= n < self.namespaces@.len() ==> self.namespaces@[n].aliases@.len()
                        == self.namespaces@[n].targets@.len(),
                    forall|n: int, j2: int|
                        0 <= n < self.namespaces@.len() && 0 <= j2 < self.namespaces@[n].targets@.len()
                            ==> self.namespaces@[n].targets@[j2] < self.units@.len(),
                    forall|n: int, j2: int|
                        0 <= n < j2 < self.namespaces@.len() ==> self.namespaces@[n].tag@ != self.namespaces@[j2].tag@,
                    forall|t: Seq<char>, a: Seq<char>|
                        #[trigger] self.spec_lookup(t, a) == if (among(tt, i as int, t) && nn.contains(a))
                            || (t == ti && among(nn, j as int, a)) {
                            Some(k)
                        } else {
                            old_db.spec_lookup(t, a)
                        },
                    forall|t: Seq<char>|
                        #[trigger] self.spec_has_tag(t) <==> (old_db.spec_has_tag(t) || among(tt, i as int, t) || t == ti),
                decreases names.len() - j,
            {
                let ghost cur = *self;
                let ghost aj = nn[j as int];
                assert(names@[j as int]@ == aj);
                proof {
                    assert(tt[i as int] == ti);
                    assert(!old_db.taken(ti, aj));
                }
                let found = ns_find(&self.namespaces[idx], &names[j]);
                if found.is_none() {
                    let nm = names[j].clone();
                    let ghost ns_old = self.namespaces@[idx as int];
                    ns_insert(&mut self.namespaces[idx], nm, k);
                    proof {
                        let ns_new = self.namespaces@[idx as int];
                        assert(self.namespaces@ == cur.namespaces@.update(idx as int, ns_new));
                        lemma_ns_index_update(cur.namespaces@, idx as int, ns_new, ti);
                        assert(nm@ == aj);
                        assert forall|t: Seq<char>, a: Seq<char>| #[trigger] self.spec_lookup(t, a) == if t == ti && a == aj { Some(k) } else { cur.spec_lookup(t, a) } by {
                            lemma_ns_index_update(cur.namespaces@, idx as int, ns_new, t);
                            lemma_ns_index_range(cur.namespaces@, t);
                            lemma_ns_index_range(cur.namespaces@, ti);
                            if t == ti {
                                lemma_ns_get_push(ns_old.aliases@, ns_old.targets@, nm, k, a);
                            } else {
                                let n = ns_index(cur.namespaces@, t);
                                if n >= 0 {
                                    assert(n != idx);
                                    assert(self.namespaces@[n] == cur.namespaces@[n]);
                                }
                            }
                        }
                        assert forall|t: Seq<char>| #[trigger] self.spec_has_tag(t) == cur.spec_has_tag(t) by {
                            lemma_ns_index_update(cur.namespaces@, idx as int, ns_new, t);
                        }
                        assert forall|n: int, j2: int|
                            0 <= n < self.namespaces@.len() && 0 <= j2 < self.namespaces@[n].targets@.len()
                                implies self.namespaces@[n].targets@[j2] < self.units@.len() by {
                            if n == idx {
                                if j2 < ns_old.targets@.len() {
                                    assert(self.namespaces@[n].targets@[j2] == ns_old.targets@[j2]);
                                }
                            }
                        }
                    }
                }
                proof {
                    assert forall|a: Seq<char>| among(nn, j + 1, a) <==> (among(nn, j as int, a) || a == aj) by {
                        lemma_among_step(nn, j as int, a);
                    }
                    assert(nn.contains(aj));
                }
                j = j + 1;
            }
            proof {
                assert forall|a: Seq<char>| among(nn, j as int, a) <==> nn.contains(a) by {
                    lemma_among_all(nn, a);
                }
                assert forall|t: Seq<char>| among(tt, i + 1, t) <==> (among(tt, i as int, t) || t == ti) by {
                    lemma_among_step(tt, i as int, t);
                }
            }
            i = i + 1;
        }
        proof {
            assert forall|t: Seq<char>| among(tt, i as int, t) <==> tt.contains(t) by {
                lemma_among_all(tt, t);
            }
            assert(self.spec_has_tag(self.default_namespace@));
            assert(self.spec_has_tag(self.preferred_namespace@));
        }
        Ok(())
    }
}

/// A unit being assembled from the lines of a units file. Each property may
/// be given once; a second assignment is refused and leaves the unit as it was.
#[derive(Debug, Clone)]
pub struct UnitInit {
    pub unit: Unit,
    pub default_name: bool,
    pub default_conv: bool,
    pub default_dims: bool,
    pub default_inv: bool,
    pub default_type: bool,
    pub default_zpt: bool,
    pub has_aliases: bool,
    pub has_tags: bool,
}

impl UnitInit {
    /// Nothing set yet.
    pub open spec fn spec_fresh(&self) -> bool {
        &&& self.default_name && self.default_conv && self.default_dims && self.default_inv
        &&& self.default_type && self.default_zpt && !self.has_aliases && !self.has_tags
        &&& self.unit.name@.len() == 0 && self.unit.aliases@.len() == 0 && self.unit.tags@.len() == 0
        &&& self.unit.unit_type == UnitType::Area
        &&& self.unit.conv_factor@ == "1"@ && self.unit.zero_point@ == "0"@
        &&& self.unit.dimensions@ == "1"@ && self.unit.inverse@ == "0"@
    }

    pub fn new() -> (r: UnitInit)
        ensures
            r.spec_fresh(),
    {
        UnitInit {
            unit: Unit::new(),
            default_name: true,
            default_conv: true,
            default_dims: true,
            default_inv: true,
            default_type: true,
            default_zpt: true,
            has_aliases: false,
            has_tags: false,
        }
    }

    /// Sets the name unless one was set; tells whether it was.
    pub fn set_common_name(&mut self, name: String) -> (r: bool)
        ensures
            r == old(self).default_name,
            r ==> *final(self) == (UnitInit { unit: Unit { name: name, ..old(self).unit }, default_name: false, ..*old(self) }),
            !r ==> *final(self) == *old(self),
    {
        if self.default_name {
            self.unit.name = name;
            self.default_name = false;
            true
        } else {
            false
        }
    }

    pub fn set_conv_factor(&mut self, conv_factor: String) -> (r: bool)
        ensures
            r == old(self).default_conv,
            r ==> *final(self) == (UnitInit { unit: Unit { conv_factor: conv_factor, ..old(self).unit }, default_conv: false, ..*old(self) }),
            !r ==> *final(self) == *old(self),
    {
        if self.default_conv {
            self.unit.conv_factor = conv_factor;
            self.default_conv = false;
            true
        } else {
            false
        }
    }

    pub fn set_dimensions(&mut self, dimensions: String) -> (r: bool)
        ensures
            r == old(self).default_dims,
            r ==> *final(self) == (UnitInit { unit: Unit { dimensions: dimensions, ..old(self).unit }, default_dims: false, ..*old(self) }),
            !r ==> *final(self) == *old(self),
    {
        if self.default_dims {
            self.unit.dimensions = dimensions;
            self.default_dims = false;
            true
        } else {
            false
        }
    }

    pub fn set_inverse(&mut self, inverse: String) -> (r: bool)
        ensures
            r == old(self).default_inv,
            r ==> *final(self) == (UnitInit { unit: Unit { inverse: inverse, ..old(self).unit }, default_inv: false, ..*old(self) }),
            !r ==> *final(self) == *old(self),
    {
        if self.default_inv {
            self.unit.inverse = inverse;
            self.default_inv = false;
            true
        } else {
            false
        }
    }

    pub fn set_unit_type(&mut self, unit_type: UnitType) -> (r: bool)
        ensures
            r == old(self).default_type,
            r ==> *final(self) == (UnitInit { unit: Unit { unit_type: unit_type, ..old(self).unit }, default_type: false, ..*old(self) }),
            !r ==> *final(self) == *old(self),
    {
        if self.default_type {
            self.unit.unit_type = unit_type;
            self.default_type = false;
            true
        } else {
            false
        }
    }

    pub fn set_zero_point(&mut self, zero_point: String) -> (r: bool)
        ensures
            r == old(self).default_zpt,
            r ==> *final(self) == (UnitInit { unit: Unit { zero_point: zero_point, ..old(self).unit }, default_zpt: false, ..*old(self) }),
            !r ==> *final(self) == *old(self),
    {
        if self.default_zpt {
            self.unit.zero_point = zero_point;
            self.default_zpt = false;
            true
        } else {
            false
        }
    }

    pub fn set_aliases(&mut self, aliases: Vec<String>) -> (r: bool)
        ensures
            r == !old(self).has_aliases,
            r ==> *final(self) == (UnitInit { unit: Unit { aliases: aliases, ..old(self).unit }, has_aliases: true, ..*old(self) }),
            !r ==> *final(self) == *old(self),
    {
        if !self.has_aliases {
            self.unit.aliases = aliases;
            self.has_aliases = true;
            true
        } else {
            false
        }
    }

    pub fn set_tags(&mut self, tags: Vec<String>) -> (r: bool)
        ensures
            r == !old(self).has_tags,
            r ==> *final(self) == (UnitInit { unit: Unit { tags: tags, ..old(self).unit }, has_tags: true, ..*old(self) }),
            !r ==> *final(self) == *old(self),
    {
        if !self.has_tags {
            self.unit.tags = tags;
            self.has_tags = true;
            true
        } else {
            false
        }
    }

    /// A unit needs at least its name, conversion factor and type.
    pub fn is_well_formed(&self) -> (r: bool)
        ensures
            r == !(self.default_name || self.default_conv || self.default_type),
    {
        !(self.default_name || self.default_conv || self.default_type)
    }
}
} // verus!
