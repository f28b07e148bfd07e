//! The colours recently applied, offered again in the colour window.
use vstd::prelude::*;

verus! {

/// The colours (as 8-bit RGBA) recorded by Apply, each once, and whether the
/// colour window's Confirm was pressed since the last reset.
pub struct Colors {
    pub selects: Vec<[u8; 4]>,
    pub clicked: bool,
}

impl Colors {
    /// No colour recorded, Confirm not pressed.
    pub fn new() -> (r: Colors)
        ensures
            r.selects@ == Seq::<[u8; 4]>::empty(),
            !r.clicked,
    {
        Colors { selects: Vec::new(), clicked: false }
    }

    /// Records `clr` unless it is already recorded.
    pub fn add(&mut self, clr: [u8; 4])
        ensures
            final(self).clicked == old(self).clicked,
            final(self).selects@ == if old(self).selects@.contains(clr) {
                old(self).selects@
            } else {
                old(self).selects@.push(clr)
            },
    {
        let mut i: usize = 0;
        while i < self.selects.len()
            invariant
                i <= self.selects@.len(),
                self.selects@ == old(self).selects@,
                self.clicked == old(self).clicked,
                forall|j: int| 0 <= j < i ==> self.selects@[j] != clr,
            decreases self.selects@.len() - i,
        {
            let c = self.selects[i];
            if c[0] == clr[0] && c[1] == clr[1] && c[2] == clr[2] && c[3] == clr[3] {
                proof {
                    assert(c =~= clr);
                    assert(self.selects@[i as int] == clr);
                }
                return;
            }
            i += 1;
        }
        self.selects.push(clr);
    }

    /// Starts a new choice: Confirm not pressed; the recorded colours stay.
    pub fn reset(&mut self)
        ensures
            final(self).selects@ == old(self).selects@,
            !final(self).clicked,
    {
        self.clicked = false;
    }
}

/// Recording a colour twice records it once: the recorded colours never
/// repeat, whatever order they were added in.
pub proof fn lemma_recorded_colors_distinct(s: Seq<[u8; 4]>, clr: [u8; 4])
    requires
        forall|i: int, j: int| 0 <= i < j < s.len() ==> s[i] != s[j],
    ensures
        ({
            let t = if s.contains(clr) {
                s
            } else {
                s.push(clr)
            };
            &&& t.contains(clr)
            &&& forall|i: int, j: int| 0 <= i < j < t.len() ==> t[i] != t[j]
        }),
{
    if !s.contains(clr) {
        let t = s.push(clr);
        assert(t[s.len() as int] == clr);
        assert forall|i: int, j: int| 0 <= i < j < t.len() implies t[i] != t[j] by {
            if j == s.len() {
                assert(t[i] == s[i]);
                if s[i] == clr {
                    assert(s.contains(clr));
                }
            }
        }
    }
}

} // verus!
