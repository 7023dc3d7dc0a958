use vstd::prelude::*;
use crate::text::{replace_all, replace_text};

verus! {

/// Applies `rules` in order: each replaces every match of its pattern in
/// what the rules before it produced.
pub open spec fn apply_rules(rules: Seq<(Seq<char>, Seq<char>)>, s: Seq<char>) -> Seq<char>
    decreases rules.len(),
{
    if rules.len() == 0 {
        s
    } else {
        let (p, r) = rules.last();
        replace_all(apply_rules(rules.drop_last(), s), p, r)
    }
}

/// The rule list after `pattern` is mapped to `replacement`: an existing rule
/// for the pattern keeps its place and takes the new replacement, a new
/// pattern goes to the end.
pub open spec fn with_rule(
    rules: Seq<(Seq<char>, Seq<char>)>,
    pattern: Seq<char>,
    replacement: Seq<char>,
) -> Seq<(Seq<char>, Seq<char>)> {
    if exists|i: int| 0 <= i < rules.len() && (#[trigger] rules[i]).0 == pattern {
        let i = choose|i: int| 0 <= i < rules.len() && (#[trigger] rules[i]).0 == pattern;
        rules.update(i, (pattern, replacement))
    } else {
        rules.push((pattern, replacement))
    }
}

/// No two rules share a pattern.
pub open spec fn distinct_patterns(rules: Seq<(Seq<char>, Seq<char>)>) -> bool {
    forall|i: int, j: int| 0 <= i < rules.len() && 0 <= j < rules.len() && i != j ==> rules[i].0 != rules[j].0
}

/// A rewrite rule: every match of `pattern` becomes `replacement`.
pub struct TransformRule {
    pub pattern: String,
    pub replacement: String,
}

/// An ordered set of rewrite rules, applied in the order their patterns were
/// first added, so the same rules give the same output on every run.
pub struct DataProcessor {
    rules: Vec<TransformRule>,
}

impl View for DataProcessor {
    type V = Seq<(Seq<char>, Seq<char>)>;

    closed spec fn view(&self) -> Seq<(Seq<char>, Seq<char>)> {
        self.rules@.map_values(|r: TransformRule| (r.pattern@, r.replacement@))
    }
}

impl DataProcessor {
    /// Well-formedness: patterns are distinct.
    pub open spec fn wf(&self) -> bool {
        distinct_patterns(self@)
    }

    /// A pipeline with no rules: it hands its input back unchanged.
    pub fn new() -> (r: Self)
        ensures
            r.wf(),
            r@ == Seq::<(Seq<char>, Seq<char>)>::empty(),
    {
        let r = DataProcessor { rules: Vec::new() };
        assert(r@ =~= Seq::<(Seq<char>, Seq<char>)>::empty());
        r
    }

    /// Runs `data` through every rule, in order.
    pub fn process(&self, data: &str) -> (r: String)
        ensures
            r@ == apply_rules(self@, data@),
    {
        let mut result = String::from_str(data);
        let mut i: usize = 0;
        while i < self.rules.len()
            invariant
                i <= self.rules@.len(),
                self@.len() == self.rules@.len(),
                result@ == apply_rules(self@.subrange(0, i as int), data@),
            decreases self.rules@.len() - i,
        {
            let rule = &self.rules[i];
            let next = replace_text(result.as_str(), rule.pattern.as_str(), rule.replacement.as_str());
            proof {
                let pre = self@.subrange(0, i as int + 1);
                assert(pre.drop_last() =~= self@.subrange(0, i as int));
                assert(pre.last() == (rule.pattern@, rule.replacement@));
            }
            result = next;
            i = i + 1;
        }
        assert(self@.subrange(0, i as int) =~= self@);
        result
    }

    /// Maps `pattern` to `replacement`, replacing the replacement of an
    /// existing rule for the same pattern.
    pub fn add_rule(&mut self, pattern: String, replacement: String)
        requires
            old(self).wf(),
        ensures
            final(self).wf(),
            final(self)@ == with_rule(old(self)@, pattern@, replacement@),
    {
        let ghost p = pattern@;
        let ghost q = replacement@;
        let mut i: usize = 0;
        while i < self.rules.len()
            invariant
                i <= self.rules@.len(),
                self@.len() == self.rules@.len(),
                self.wf(),
                p == pattern@,
                q == replacement@,
                self@ == old(self)@,
                forall|j: int| 0 <= j < i ==> self@[j].0 != p,
            decreases self.rules@.len() - i,
        {
            assert(self@[i as int] == (self.rules@[i as int].pattern@, self.rules@[i as int].replacement@));
            if self.rules[i].pattern == pattern {
                let ghost before = self@;
                let ghost before_rules = self.rules@;
                self.rules.set(i, TransformRule { pattern, replacement });
                proof {
                    assert forall|j: int| 0 <= j < self@.len() implies self@[j] == before.update(i as int, (p, q))[j] by {
                        if j != i as int {
                            assert(self.rules@[j] == before_rules[j]);
                        }
                    }
                    assert(self@ =~= before.update(i as int, (p, q)));
                    assert(before[i as int].0 == p);
                    let k = choose|k: int| 0 <= k < before.len() && (#[trigger] before[k]).0 == p;
                    assert(k == i as int);
                }
                return;
            }
            i = i + 1;
        }
        let ghost before = self@;
        self.rules.push(TransformRule { pattern, replacement });
        assert(self@ =~= before.push((p, q)));
    }
}

} // verus!
