use vstd::prelude::*;

use lsystem::{LSystem, MapRules};

verus! {

#[verifier::external_type_specification]
#[verifier::external_body]
#[verifier::reject_recursive_types(T)]
pub struct ExMapRules<T: core::hash::Hash + Eq>(MapRules<T>);

/// A running `lsystem::LSystem` over characters, driven one generation at a
/// time.
#[verifier::external_body]
pub struct Expander {
    system: LSystem<char, MapRules<char>>,
}

/// The production table held by a `MapRules<char>`.
pub uninterp spec fn map_rules_table(r: MapRules<char>) -> Map<char, Seq<char>>;

/// The current generation held by an `Expander`.
pub uninterp spec fn expander_state(e: Expander) -> Seq<char>;

/// The production table that an `Expander` rewrites with.
pub uninterp spec fn expander_table(e: Expander) -> Map<char, Seq<char>>;

/// What one symbol becomes in one generation: its replacement, or itself
/// when the table has no rule for it.
pub open spec fn image(table: Map<char, Seq<char>>, c: char) -> Seq<char> {
    if table.contains_key(c) {
        table[c]
    } else {
        seq![c]
    }
}

/// One generation: every symbol is replaced independently and at once.
pub open spec fn rewrite(s: Seq<char>, table: Map<char, Seq<char>>) -> Seq<char>
    decreases s.len(),
{
    if s.len() == 0 {
        Seq::empty()
    } else {
        rewrite(s.drop_last(), table) + image(table, s.last())
    }
}

/// `n` generations starting from `start`.
pub open spec fn expand_spec(start: Seq<char>, table: Map<char, Seq<char>>, n: nat) -> Seq<char>
    decreases n,
{
    if n == 0 {
        start
    } else {
        rewrite(expand_spec(start, table, (n - 1) as nat), table)
    }
}

/// Some symbol of `s` has a rule in `table`.
pub open spec fn has_production(s: Seq<char>, table: Map<char, Seq<char>>) -> bool {
    exists|i: int| 0 <= i < s.len() && table.contains_key(#[trigger] s[i])
}

/// The table that a list of rules describes: rules are registered in order,
/// so of two rules for one symbol the later one wins.
pub open spec fn table_of(rules: Seq<(char, String)>) -> Map<char, Seq<char>>
    decreases rules.len(),
{
    if rules.len() == 0 {
        Map::empty()
    } else {
        table_of(rules.drop_last()).insert(rules.last().0, rules.last().1@)
    }
}

/// Relies on `MapRules::new`: the table starts empty.
#[verifier::external_body]
fn map_rules_new() -> (r: MapRules<char>)
    ensures
        map_rules_table(r) =~= Map::empty(),
{
    MapRules::new()
}

/// Relies on `MapRules::set_str`: the symbol's replacement becomes the
/// characters of `v`, replacing any earlier one.
#[verifier::external_body]
fn map_rules_set_str(r: &mut MapRules<char>, k: char, v: &str)
    ensures
        map_rules_table(*final(r)) == map_rules_table(*old(r)).insert(k, v@),
{
    r.set_str(k, v);
}

/// Relies on `LSystem::new`: the current generation is the given start
/// sequence, rewritten with the given rules.
#[verifier::external_body]
fn expander_new(rules: MapRules<char>, start: Vec<char>) -> (e: Expander)
    ensures
        expander_state(e) == start@,
        expander_table(e) == map_rules_table(rules),
{
    Expander { system: LSystem::new(rules, start) }
}

/// Relies on `Iterator::next` of `LSystem`: when some symbol of the current
/// generation has a rule, every symbol is replaced by its production (or kept
/// when it has none) and the new generation is returned; otherwise nothing
/// changes and `None` comes back.
#[verifier::external_body]
fn expander_next(e: &mut Expander) -> (r: Option<Vec<char>>)
    ensures
        expander_table(*final(e)) == expander_table(*old(e)),
        has_production(expander_state(*old(e)), expander_table(*old(e))) ==> {
            &&& expander_state(*final(e)) == rewrite(
                expander_state(*old(e)),
                expander_table(*old(e)),
            )
            &&& r matches Some(v) && v@ == expander_state(*final(e))
        },
        !has_production(expander_state(*old(e)), expander_table(*old(e))) ==> {
            &&& expander_state(*final(e)) == expander_state(*old(e))
            &&& r is None
        },
{
    e.system.next()
}

/// Relies on `String::from_iter`: the string holds the characters in order.
#[verifier::external_body]
fn string_from_chars(v: &Vec<char>) -> (r: String)
    ensures
        r@ == v@,
{
    String::from_iter(v.iter())
}

/// A symbol with no rule rewrites to itself.
proof fn lemma_rewrite_without_production(s: Seq<char>, table: Map<char, Seq<char>>)
    requires
        !has_production(s, table),
    ensures
        rewrite(s, table) == s,
    decreases s.len(),
{
    if s.len() > 0 {
        assert(!has_production(s.drop_last(), table)) by {
            if has_production(s.drop_last(), table) {
                let i = choose|i: int|
                    0 <= i < s.drop_last().len() && table.contains_key(#[trigger] s.drop_last()[i]);
                assert(s[i] == s.drop_last()[i]);
            }
        }
        lemma_rewrite_without_production(s.drop_last(), table);
        assert(!table.contains_key(s[s.len() - 1]));
        assert(s.drop_last() + seq![s.last()] =~= s);
    }
}

/// Once a generation rewrites to itself, every later generation equals it.
proof fn lemma_expand_fixed(start: Seq<char>, table: Map<char, Seq<char>>, k: nat, n: nat)
    requires
        k <= n,
        rewrite(expand_spec(start, table, k), table) == expand_spec(start, table, k),
    ensures
        expand_spec(start, table, n) == expand_spec(start, table, k),
    decreases n - k,
{
    if k < n {
        lemma_expand_fixed(start, table, k, (n - 1) as nat);
    }
}

/// Rewriting distributes over concatenation.
proof fn lemma_rewrite_concat(a: Seq<char>, b: Seq<char>, table: Map<char, Seq<char>>)
    ensures
        rewrite(a + b, table) == rewrite(a, table) + rewrite(b, table),
    decreases b.len(),
{
    if b.len() == 0 {
        assert(a + b =~= a);
        assert(rewrite(a, table) + rewrite(b, table) =~= rewrite(a, table));
    } else {
        assert((a + b).drop_last() =~= a + b.drop_last());
        assert((a + b).last() == b.last());
        lemma_rewrite_concat(a, b.drop_last(), table);
        assert(rewrite(a + b, table) =~= rewrite(a, table) + rewrite(b, table));
    }
}

/// Expansion distributes over concatenation.
proof fn lemma_expand_concat(a: Seq<char>, b: Seq<char>, table: Map<char, Seq<char>>, n: nat)
    ensures
        expand_spec(a + b, table, n) == expand_spec(a, table, n) + expand_spec(b, table, n),
    decreases n,
{
    if n > 0 {
        let m = (n - 1) as nat;
        lemma_expand_concat(a, b, table, m);
        lemma_rewrite_concat(expand_spec(a, table, m), expand_spec(b, table, m), table);
    }
}

/// A symbol without a rule stays a lone copy of itself in every generation.
proof fn lemma_expand_single_without_rule(c: char, table: Map<char, Seq<char>>, n: nat)
    requires
        !table.contains_key(c),
    ensures
        expand_spec(seq![c], table, n) == seq![c],
    decreases n,
{
    if n > 0 {
        lemma_expand_single_without_rule(c, table, (n - 1) as nat);
        assert(seq![c].drop_last() =~= Seq::<char>::empty());
        assert(rewrite(Seq::<char>::empty(), table) == Seq::<char>::empty());
        assert(rewrite(seq![c], table) =~= seq![c]);
    }
}

/// A symbol is a key of the table of `rules` exactly when some rule is for it.
proof fn lemma_table_of_keys(rules: Seq<(char, String)>, c: char)
    ensures
        table_of(rules).contains_key(c) <==> exists|i: int| 0 <= i < rules.len() && (#[trigger] rules[i]).0 == c,
    decreases rules.len(),
{
    if rules.len() > 0 {
        lemma_table_of_keys(rules.drop_last(), c);
        if exists|i: int| 0 <= i < rules.drop_last().len() && (#[trigger] rules.drop_last()[i]).0 == c {
            let i = choose|i: int| 0 <= i < rules.drop_last().len() && (#[trigger] rules.drop_last()[i]).0 == c;
            assert(rules[i] == rules.drop_last()[i]);
        }
        if exists|i: int| 0 <= i < rules.len() && (#[trigger] rules[i]).0 == c {
            let i = choose|i: int| 0 <= i < rules.len() && (#[trigger] rules[i]).0 == c;
            if i < rules.len() - 1 {
                assert(rules.drop_last()[i] == rules[i]);
            }
        }
    }
}

/// When every rule replaces its symbol by that symbol alone, every symbol's
/// image is itself.
proof fn lemma_identity_rules_image(rules: Seq<(char, String)>, c: char)
    requires
        forall|i: int| 0 <= i < rules.len() ==> (#[trigger] rules[i]).1@ == seq![rules[i].0],
    ensures
        image(table_of(rules), c) == seq![c],
    decreases rules.len(),
{
    if rules.len() > 0 {
        assert forall|i: int| 0 <= i < rules.drop_last().len() implies (#[trigger] rules.drop_last()[i]).1@
            == seq![rules.drop_last()[i].0] by {
            assert(rules.drop_last()[i] == rules[i]);
        }
        lemma_identity_rules_image(rules.drop_last(), c);
        assert(rules[rules.len() - 1].1@ == seq![rules[rules.len() - 1].0]);
    }
}

/// Rewriting with a table under which every symbol's image is itself changes
/// nothing.
proof fn lemma_rewrite_identity(s: Seq<char>, rules: Seq<(char, String)>)
    requires
        forall|i: int| 0 <= i < rules.len() ==> (#[trigger] rules[i]).1@ == seq![rules[i].0],
    ensures
        rewrite(s, table_of(rules)) == s,
    decreases s.len(),
{
    if s.len() > 0 {
        lemma_rewrite_identity(s.drop_last(), rules);
        lemma_identity_rules_image(rules, s.last());
        assert(s.drop_last() + seq![s.last()] =~= s);
    }
}

/// With no generations, expansion gives back the grammar's start sequence.
pub proof fn lemma_zero_generations_identity(g: &LSysRules)
    ensures
        expand_spec(g.start@, g.table(), 0) == g.start@,
{
}

/// When every rule replaces its symbol by that symbol alone, expansion gives
/// back the start sequence for every number of generations.
pub proof fn lemma_identity_rules_fixed_point(g: &LSysRules, n: nat)
    requires
        forall|i: int| 0 <= i < g.rules@.len() ==> (#[trigger] g.rules@[i]).1@ == seq![g.rules@[i].0],
    ensures
        expand_spec(g.start@, g.table(), n) == g.start@,
    decreases n,
{
    if n > 0 {
        lemma_identity_rules_fixed_point(g, (n - 1) as nat);
        lemma_rewrite_identity(g.start@, g.rules@);
    }
}

/// A symbol for which no rule exists stays in place, unchanged, through any
/// number of generations: what stands before and after it is expanded on its
/// own.
pub proof fn lemma_ruleless_symbol_preserved(
    g: &LSysRules,
    before: Seq<char>,
    c: char,
    after: Seq<char>,
    n: nat,
)
    requires
        forall|i: int| 0 <= i < g.rules@.len() ==> (#[trigger] g.rules@[i]).0 != c,
        g.start@ == before + seq![c] + after,
    ensures
        expand_spec(g.start@, g.table(), n) == expand_spec(before, g.table(), n) + seq![c]
            + expand_spec(after, g.table(), n),
{
    lemma_table_of_keys(g.rules@, c);
    lemma_expand_concat(before + seq![c], after, g.table(), n);
    lemma_expand_concat(before, seq![c], g.table(), n);
    lemma_expand_single_without_rule(c, g.table(), n);
}

/// Error of a grammar expansion that cannot reach the requested generation.
/// Expansion here treats a generation in which no symbol has a rule as a
/// fixed point, so it always reaches the generation asked for.
#[derive(Debug, PartialEq, Eq, Structural)]
pub enum LSystemEvaluationError {
    EvaluationError,
}

/// A grammar: the start sequence and the production rules, each rule a
/// symbol and its replacement text.
pub struct LSysRules {
    pub start: Vec<char>,
    pub rules: Vec<(char, String)>,
}

impl LSysRules {
    /// The production table of these rules (a later rule for a symbol wins).
    pub open spec fn table(&self) -> Map<char, Seq<char>> {
        table_of(self.rules@)
    }

    pub fn new(start: Vec<char>, rules: Vec<(char, String)>) -> (r: Self)
        ensures
            r.start@ == start@,
            r.rules@ == rules@,
    {
        Self { start, rules }
    }

    /// The rules as an `lsystem` rule set.
    pub fn as_map_rules(&self) -> (r: MapRules<char>)
        ensures
            map_rules_table(r) == self.table(),
    {
        let mut map_rules = map_rules_new();
        let mut i: usize = 0;
        while i < self.rules.len()
            invariant
                i <= self.rules@.len(),
                map_rules_table(map_rules) == table_of(self.rules@.take(i as int)),
            decreases self.rules@.len() - i,
        {
            let (k, v) = &self.rules[i];
            map_rules_set_str(&mut map_rules, *k, v.as_str());
            proof {
                assert(self.rules@.take(i + 1).drop_last() =~= self.rules@.take(i as int));
            }
            i += 1;
        }
        assert(self.rules@.take(i as int) =~= self.rules@);
        map_rules
    }

    /// The symbol sequence after `levels` generations.
    pub fn expand(&self, levels: usize) -> (r: Vec<char>)
        ensures
            r@ == expand_spec(self.start@, self.table(), levels as nat),
    {
        let mut system = expander_new(self.as_map_rules(), self.start.clone());
        let mut current = self.start.clone();
        assert(current@ =~= self.start@);
        let mut generation: usize = 0;
        while generation < levels
            invariant
                generation <= levels,
                expander_table(system) == self.table(),
                expander_state(system) == current@,
                current@ == expand_spec(self.start@, self.table(), generation as nat),
            decreases levels - generation,
        {
            match expander_next(&mut system) {
                Some(next) => {
                    current = next;
                },
                None => {
                    proof {
                        lemma_rewrite_without_production(current@, self.table());
                        lemma_expand_fixed(
                            self.start@,
                            self.table(),
                            generation as nat,
                            levels as nat,
                        );
                    }
                    return current;
                },
            }
            generation += 1;
        }
        current
    }

    /// The expanded symbol sequence as text. Expansion is total, so this
    /// always succeeds.
    pub fn eval(&self, levels: &usize) -> (r: Result<String, LSystemEvaluationError>)
        ensures
            r matches Ok(s) && s@ == expand_spec(self.start@, self.table(), *levels as nat),
    {
        let symbols = self.expand(*levels);
        Ok(string_from_chars(&symbols))
    }
}

/// A named grammar together with the number of generations to expand.
pub struct LSys {
    pub name: String,
    pub rules: LSysRules,
    pub iterations: usize,
}

/// Whether the geometry drawn from a grammar is stale.
pub struct LSysDrawer {
    pub changed: bool,
}

impl LSysDrawer {
    /// A new drawer has drawn nothing yet, so it starts stale.
    pub fn new() -> (r: Self)
        ensures
            r.changed,
    {
        Self { changed: true }
    }
}

} // verus!
