//! Named regular expression rules applied to lines of program output.
//!
//! The rules are kept in a `Vec` of (name, rule) pairs with the invariant
//! that no name occurs twice, not in a `HashMap<String, Regex>`: vstd
//! specifies `HashMap` only for key types that obey its key model
//! (`obeys_key_model`), which it grants to integer and boolean keys but
//! not to `String`, so a map keyed by the rule name would give no
//! provable lookups.  The `Vec` has the map's meaning: its view is the
//! map from each name to its pattern, a later rule of a name replacing
//! the earlier one.
use vstd::prelude::*;
use regex::Regex;
use crate::text::str_eq;

verus! {

#[verifier::external_type_specification]
#[verifier::external_body]
pub struct ExRegex(Regex);

/// Whether `regex::Regex::new` accepts `pattern` (valid syntax, within the
/// default size limit).
pub uninterp spec fn regex_compiles(pattern: Seq<char>) -> bool;

/// The capture groups of the first match of `pattern` in `text`, as
/// `regex::Regex::captures` reports them: `None` when there is no match,
/// else one entry per group, group 0 being the whole match and a group
/// that did not take part being `None`.
pub uninterp spec fn regex_captures(pattern: Seq<char>, text: Seq<char>) -> Option<
    Seq<Option<Seq<char>>>,
>;

/// A rule: a pattern together with the regex compiled from it.  Values are
/// only made by `compile_rule`, so the regex always is the compiled pattern.
pub struct Rule {
    pattern: String,
    regex: Regex,
}

impl View for Rule {
    type V = Seq<char>;

    closed spec fn view(&self) -> Seq<char> {
        self.pattern@
    }
}

/// Compiles `pattern` with `regex::Regex::new`.  Claimed: the result is
/// `Some` exactly when the pattern compiles, and then holds the pattern.
#[verifier::external_body]
fn compile_rule(pattern: &str) -> (r: Option<Rule>)
    ensures
        r is Some <==> regex_compiles(pattern@),
        r matches Some(rule) ==> rule@ == pattern@,
{
    Regex::new(pattern).ok().map(|regex| Rule { pattern: pattern.to_string(), regex })
}

/// Runs `regex::Regex::captures` of the rule's regex on `text` and copies
/// each group's text.  Claimed: the result is the named capture result of
/// the rule's pattern on `text`, and group 0 is present in a match (the
/// crate documents that `get(0)` is never `None`).
#[verifier::external_body]
fn rule_captures(rule: &Rule, text: &str) -> (r: Option<Vec<Option<String>>>)
    ensures
        r.deep_view() == regex_captures(rule@, text@),
        r matches Some(g) ==> g@.len() >= 1 && g@[0] is Some,
{
    rule.regex.captures(text).map(|c| c.iter().map(|m| m.map(|m| m.as_str().to_string())).collect())
}

/// The rules of a list of (name, pattern) entries, a later entry for a
/// name replacing an earlier one.
pub open spec fn entries_map(s: Seq<(Seq<char>, Seq<char>)>) -> Map<Seq<char>, Seq<char>>
    decreases s.len(),
{
    if s.len() == 0 {
        Map::empty()
    } else {
        entries_map(s.drop_last()).insert(s.last().0, s.last().1)
    }
}

pub open spec fn names_unique(s: Seq<(Seq<char>, Seq<char>)>) -> bool {
    forall|i: int, j: int| 0 <= i < j < s.len() ==> #[trigger] s[i].0 != #[trigger] s[j].0
}

proof fn lemma_entries_map_lookup(s: Seq<(Seq<char>, Seq<char>)>, n: Seq<char>)
    requires
        names_unique(s),
    ensures
        entries_map(s).dom().contains(n) <==> exists|i: int| 0 <= i < s.len() && #[trigger] s[i].0 == n,
        forall|i: int| 0 <= i < s.len() && #[trigger] s[i].0 == n ==> entries_map(s)[n] == s[i].1,
    decreases s.len(),
{
    if s.len() > 0 {
        let d = s.drop_last();
        assert(names_unique(d));
        lemma_entries_map_lookup(d, n);
        if exists|i: int| 0 <= i < d.len() && #[trigger] d[i].0 == n {
            let i = choose|i: int| 0 <= i < d.len() && #[trigger] d[i].0 == n;
            assert(s[i].0 == n);
        }
        if exists|i: int| 0 <= i < s.len() && #[trigger] s[i].0 == n {
            let i = choose|i: int| 0 <= i < s.len() && #[trigger] s[i].0 == n;
            if i < s.len() - 1 {
                assert(d[i].0 == n);
            }
        }
    }
}

proof fn lemma_entries_map_len(s: Seq<(Seq<char>, Seq<char>)>)
    requires
        names_unique(s),
    ensures
        entries_map(s).dom().finite(),
        entries_map(s).dom().len() == s.len(),
    decreases s.len(),
{
    if s.len() > 0 {
        let d = s.drop_last();
        assert(names_unique(d));
        lemma_entries_map_len(d);
        lemma_entries_map_lookup(d, s.last().0);
        if entries_map(d).dom().contains(s.last().0) {
            let i = choose|i: int| 0 <= i < d.len() && #[trigger] d[i].0 == s.last().0;
            assert(s[i].0 == s[s.len() - 1].0);
        }
    }
}

proof fn lemma_entries_map_update(s: Seq<(Seq<char>, Seq<char>)>, i: int, p: Seq<char>)
    requires
        names_unique(s),
        0 <= i < s.len(),
    ensures
        entries_map(s.update(i, (s[i].0, p))) == entries_map(s).insert(s[i].0, p),
    decreases s.len(),
{
    let t = s.update(i, (s[i].0, p));
    if i == s.len() - 1 {
        assert(t.drop_last() =~= s.drop_last());
        assert(entries_map(t) =~= entries_map(s).insert(s[i].0, p));
    } else {
        let d = s.drop_last();
        assert(names_unique(d));
        lemma_entries_map_update(d, i, p);
        assert(t.drop_last() =~= d.update(i, (d[i].0, p)));
        assert(s.last().0 != s[i].0);
        assert(entries_map(t) =~= entries_map(s).insert(s[i].0, p));
    }
}

/// Named rules, each a regular expression applied to lines of text.
pub struct FilterRules {
    rules: Vec<(String, Rule)>,
}

pub open spec fn entry_view(e: (String, Rule)) -> (Seq<char>, Seq<char>) {
    (e.0@, e.1@)
}

impl FilterRules {
    pub closed spec fn entries(&self) -> Seq<(Seq<char>, Seq<char>)> {
        self.rules@.map_values(|e: (String, Rule)| entry_view(e))
    }

    #[verifier::type_invariant]
    closed spec fn inv(self) -> bool {
        names_unique(self.entries())
    }
}

impl View for FilterRules {
    type V = Map<Seq<char>, Seq<char>>;

    closed spec fn view(&self) -> Map<Seq<char>, Seq<char>> {
        entries_map(self.entries())
    }
}

impl FilterRules {
    /// No rules.
    pub fn new() -> (r: Self)
        ensures
            r@ == Map::<Seq<char>, Seq<char>>::empty(),
    {
        let r = FilterRules { rules: Vec::new() };
        assert(r.entries() =~= Seq::empty());
        r
    }

    fn find(&self, name: &str) -> (r: Option<usize>)
        ensures
            r matches Some(i) ==> i < self.entries().len() && self.entries()[i as int].0 == name@,
            r is None ==> forall|i: int| 0 <= i < self.entries().len() ==> #[trigger] self.entries()[i].0 != name@,
    {
        let mut i: usize = 0;
        while i < self.rules.len()
            invariant
                i <= self.rules@.len(),
                forall|j: int| 0 <= j < i ==> #[trigger] self.entries()[j].0 != name@,
            decreases self.rules.len() - i,
        {
            if str_eq(self.rules[i].0.as_str(), name) {
                return Some(i);
            }
            i = i + 1;
        }
        None
    }

    /// Add the rule `name` with pattern `rule`, replacing any rule of that
    /// name.  A pattern that does not compile leaves the rules unchanged
    /// and gives `false`.
    pub fn add_rule(&mut self, name: &str, rule: &str) -> (ok: bool)
        ensures
            ok == regex_compiles(rule@),
            ok ==> final(self)@ == old(self)@.insert(name@, rule@),
            !ok ==> final(self)@ == old(self)@,
    {
        proof {
            use_type_invariant(&*self);
        }
        let compiled = compile_rule(rule);
        match compiled {
            None => false,
            Some(r) => {
                let ghost old_e = self.entries();
                let found = self.find(name);
                let mut rules: Vec<(String, Rule)> = Vec::new();
                std::mem::swap(&mut rules, &mut self.rules);
                assert(rules@.map_values(|e: (String, Rule)| entry_view(e)) == old_e);
                match found {
                    Some(i) => {
                        let n = rules[i].0.clone();
                        rules.set(i, (n, r));
                        assert(rules@.map_values(|e: (String, Rule)| entry_view(e)) =~= old_e.update(
                            i as int,
                            (old_e[i as int].0, rule@),
                        ));
                        proof {
                            lemma_entries_map_update(old_e, i as int, rule@);
                        }
                        let ghost ne = rules@.map_values(|e: (String, Rule)| entry_view(e));
                        assert(forall|k: int| 0 <= k < ne.len() ==> #[trigger] ne[k].0 == old_e[k].0);
                        assert(names_unique(ne));
                    },
                    None => {
                        rules.push((name.to_owned(), r));
                        let ghost ne = rules@.map_values(|e: (String, Rule)| entry_view(e));
                        assert(ne.drop_last() =~= old_e);
                        assert(forall|k: int| 0 <= k < old_e.len() ==> #[trigger] ne[k].0 == old_e[k].0);
                        assert(names_unique(ne)) by {
                            assert forall|a: int, b: int| 0 <= a < b < ne.len() implies #[trigger] ne[a].0
                                != #[trigger] ne[b].0 by {
                                if b == ne.len() - 1 {
                                    assert(old_e[a].0 != name@);
                                }
                            }
                        }
                    },
                }
                self.rules = rules;
                true
            },
        }
    }

    /// Whether a rule called `name` exists.
    pub fn has_rule(&self, name: &str) -> (r: bool)
        ensures
            r == self@.contains_key(name@),
    {
        proof {
            use_type_invariant(self);
            lemma_entries_map_lookup(self.entries(), name@);
        }
        match self.find(name) {
            Some(i) => {
                assert(self.entries()[i as int].0 == name@);
                true
            },
            None => false,
        }
    }

    /// The number of rules.
    pub fn len(&self) -> (r: usize)
        ensures
            r == self@.len(),
    {
        proof {
            use_type_invariant(self);
            lemma_entries_map_len(self.entries());
        }
        self.rules.len()
    }

    /// The capture groups of the rule `rule_name` on `input`.
    pub fn evaluate(&self, rule_name: &str, input: &str) -> (r: Option<Vec<Option<String>>>)
        requires
            self@.contains_key(rule_name@),
        ensures
            r.deep_view() == regex_captures(self@[rule_name@], input@),
            r matches Some(g) ==> g@.len() >= 1 && g@[0] is Some,
    {
        proof {
            use_type_invariant(self);
            lemma_entries_map_lookup(self.entries(), rule_name@);
        }
        match self.find(rule_name) {
            Some(i) => {
                assert(self.entries()[i as int].1 == self.rules@[i as int].1@);
                rule_captures(&self.rules[i].1, input)
            },
            None => None,
        }
    }
}

/// Once `add_rule(name, pattern)` succeeds on rules `rules`, evaluating
/// `name` on any text gives the captures of `pattern`, and every other
/// name still gives what it gave before.
pub proof fn lemma_added_rule_applies(
    rules: Map<Seq<char>, Seq<char>>,
    name: Seq<char>,
    pattern: Seq<char>,
    other: Seq<char>,
    text: Seq<char>,
)
    ensures
        rules.insert(name, pattern).contains_key(name),
        regex_captures(rules.insert(name, pattern)[name], text) == regex_captures(pattern, text),
        other != name ==> rules.insert(name, pattern).contains_key(other) == rules.contains_key(
            other,
        ),
        other != name && rules.contains_key(other) ==> regex_captures(
            rules.insert(name, pattern)[other],
            text,
        ) == regex_captures(rules[other], text),
{
}

} // verus!
