use vstd::prelude::*;

use crate::config::{default_bind_addr, default_send_addr, LoaderConfig};
use crate::plugin::texts;
use crate::text::{lemma_text_lt_irreflexive, lemma_text_lt_transitive, text_less, text_lt};

verus! {

broadcast use vstd::seq_lib::group_to_multiset_ensures;

/// Texts in ascending order, equal ones side by side.
pub open spec fn is_sorted(s: Seq<Seq<char>>) -> bool {
    forall|i: int, j: int| 0 <= i < j < s.len() ==> !text_lt(#[trigger] s[j], #[trigger] s[i])
}

/// `names` in ascending order.
pub fn sorted_names(names: &Vec<String>) -> (r: Vec<String>)
    ensures
        is_sorted(texts(r@)),
        texts(r@).to_multiset() == texts(names@).to_multiset(),
{
    let mut r: Vec<String> = Vec::new();
    let mut i: usize = 0;
    while i < names.len()
        invariant
            i <= names@.len(),
            is_sorted(texts(r@)),
            texts(r@).to_multiset() == texts(names@).subrange(0, i as int).to_multiset(),
        decreases names@.len() - i,
    {
        let x = names[i].clone();
        let mut k: usize = 0;
        while k < r.len() && !text_less(x.as_str(), r[k].as_str())
            invariant
                k <= r@.len(),
                x == names@[i as int],
                forall|m: int| 0 <= m < k ==> !text_lt(x@, #[trigger] texts(r@)[m]),
            decreases r@.len() - k,
        {
            k += 1;
        }
        let ghost old_r = texts(r@);
        proof {
            assert forall|j: int| k <= j < old_r.len() implies !text_lt(old_r[j], x@) by {
                if text_lt(old_r[j], x@) {
                    assert(text_lt(x@, old_r[k as int]));
                    if j == k {
                        lemma_text_lt_transitive(old_r[j], x@, old_r[j]);
                        lemma_text_lt_irreflexive(old_r[j]);
                    } else {
                        lemma_text_lt_transitive(old_r[j], x@, old_r[k as int]);
                    }
                }
            }
        }
        r.insert(k, x);
        assert(texts(r@) =~= old_r.insert(k as int, x@));
        assert(texts(names@).subrange(0, i + 1) =~= texts(names@).subrange(0, i as int).push(x@));
        i += 1;
    }
    assert(texts(names@).subrange(0, i as int) =~= texts(names@));
    r
}

/// The first-run prompt loop: the discovered library names in ascending
/// order, how many of them have been asked about, and those enabled so far.
pub struct Wizard {
    pub names: Vec<String>,
    pub asked: usize,
    pub enabled: Vec<String>,
}

impl Wizard {
    /// The wizard's state is consistent: no more names asked about than there
    /// are, and each enabled one among those asked about.
    pub open spec fn wf(&self) -> bool {
        &&& self.asked <= self.names@.len()
        &&& forall|e: int|
            0 <= e < self.enabled@.len() ==> texts(self.names@).subrange(
                0,
                self.asked as int,
            ).contains(#[trigger] self.enabled@[e]@)
    }

    /// A wizard that will ask about each of `discovered`, in ascending order.
    pub fn new(discovered: &Vec<String>) -> (r: Wizard)
        ensures
            r.wf(),
            is_sorted(texts(r.names@)),
            texts(r.names@).to_multiset() == texts(discovered@).to_multiset(),
            r.asked == 0,
            r.enabled@.len() == 0,
    {
        Wizard { names: sorted_names(discovered), asked: 0, enabled: Vec::new() }
    }

    /// The name to ask about next, or `None` once every name has been asked about.
    pub fn pending(&self) -> (r: Option<String>)
        requires
            self.wf(),
        ensures
            self.asked < self.names@.len() ==> r == Some(self.names@[self.asked as int]),
            self.asked == self.names@.len() ==> r is None,
    {
        if self.asked < self.names.len() {
            Some(self.names[self.asked].clone())
        } else {
            None
        }
    }

    /// Records the answer about the pending name: it is enabled when `enable` holds.
    pub fn answer(&mut self, enable: bool)
        requires
            old(self).wf(),
            old(self).asked < old(self).names@.len(),
        ensures
            final(self).wf(),
            final(self).names == old(self).names,
            final(self).asked == old(self).asked + 1,
            enable ==> final(self).enabled@ == old(self).enabled@.push(
                old(self).names@[old(self).asked as int],
            ),
            !enable ==> final(self).enabled@ == old(self).enabled@,
    {
        let ghost before = texts(self.names@).subrange(0, self.asked as int);
        let ghost after = texts(self.names@).subrange(0, self.asked + 1);
        proof {
            assert forall|s: Seq<char>| before.contains(s) implies after.contains(s) by {
                let m = choose|m: int| 0 <= m < before.len() && before[m] == s;
                assert(after[m] == s);
            }
            assert(after[self.asked as int] == self.names@[self.asked as int]@);
        }
        let n = self.names.len();
        assert(self.asked < n);
        let next = self.asked + 1;
        if enable {
            let name = self.names[self.asked].clone();
            self.enabled.push(name);
        }
        self.asked = next;
    }

    /// The configuration that the answers give, or `None` when no plugin was
    /// enabled, in which case the host must stop.
    pub fn finish(self) -> (r: Option<LoaderConfig>)
        requires
            self.wf(),
        ensures
            self.enabled@.len() == 0 <==> r is None,
            r matches Some(c) ==> {
                &&& c.enabled@ == self.enabled@
                &&& c.bind_addr@ == default_bind_addr()
                &&& c.send_addr@ == default_send_addr()
            },
    {
        if self.enabled.len() == 0 {
            return None;
        }
        let mut config = LoaderConfig::default();
        config.enabled = self.enabled;
        Some(config)
    }
}

/// Whatever the answers, a wizard that discovered no library enables none,
/// and so gives no configuration.
pub proof fn lemma_nothing_discovered_enables_nothing(w: Wizard)
    requires
        w.wf(),
        w.names@.len() == 0,
    ensures
        w.enabled@.len() == 0,
{
    if w.enabled@.len() > 0 {
        assert(texts(w.names@).subrange(0, w.asked as int).contains(w.enabled@[0]@));
    }
}

/// The configuration that a finished wizard gives enables at least one
/// plugin, each of them a discovered library, and has the default addresses.
pub proof fn lemma_wizard_config_is_valid(w: Wizard, c: LoaderConfig)
    requires
        w.wf(),
        w.enabled@.len() > 0,
        c.enabled@ == w.enabled@,
    ensures
        c.enabled@.len() > 0,
        forall|e: int| 0 <= e < c.enabled@.len() ==> texts(w.names@).contains(#[trigger] c.enabled@[e]@),
{
    assert forall|e: int| 0 <= e < c.enabled@.len() implies texts(w.names@).contains(#[trigger] c.enabled@[e]@) by {
        let pre = texts(w.names@).subrange(0, w.asked as int);
        assert(pre.contains(w.enabled@[e]@));
        let m = choose|m: int| 0 <= m < pre.len() && pre[m] == w.enabled@[e]@;
        assert(texts(w.names@)[m] == pre[m]);
    }
}

} // verus!
