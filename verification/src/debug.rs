use vstd::prelude::*;
use vstd::string::StringExecFns;
use crate::stack::Stack;

verus! {

/// The characters of each borrowed string in `s`, in the same order.
pub open spec fn str_views(s: Seq<&str>) -> Seq<Seq<char>> {
    Seq::new(s.len(), |i: int| s[i]@)
}

/// The elements joined by a comma and a space, in order.
pub open spec fn joined(elems: Seq<Seq<char>>) -> Seq<char>
    decreases elems.len(),
{
    if elems.len() == 0 {
        Seq::empty()
    } else if elems.len() == 1 {
        elems[0]
    } else {
        joined(elems.drop_last()) + seq![',', ' '] + elems.last()
    }
}

/// The human-readable form of a stack's elements: a bracketed,
/// comma-and-space-separated list, in push order.
pub open spec fn rendered(elems: Seq<Seq<char>>) -> Seq<char> {
    seq!['['] + joined(elems) + seq![']']
}

impl<'a, const N: usize> Stack<&'a str, N> {
    /// Render the live elements in push order as `[e0, e1, …]`; a stack
    /// holding `"one"` then `"two"` renders as `[one, two]`. This single
    /// form serves both as the debugging and as the display text.
    pub fn render(&self) -> (r: String)
        ensures
            r@ == rendered(str_views(self@)),
    {
        let elems = self.snapshot();
        let mut out = String::new();
        out.append("[");
        proof {
            reveal_strlit("[");
            assert(out@ =~= seq!['['] + joined(str_views(elems@).subrange(0, 0)));
        }
        let mut i: usize = 0;
        while i < elems.len()
            invariant
                i <= elems@.len(),
                elems@ == self@,
                out@ == seq!['['] + joined(str_views(elems@).subrange(0, i as int)),
            decreases elems@.len() - i,
        {
            if i > 0 {
                out.append(", ");
                proof {
                    reveal_strlit(", ");
                }
            }
            out.append(elems[i]);
            proof {
                let pre = str_views(elems@).subrange(0, i as int);
                let cur = str_views(elems@).subrange(0, i as int + 1);
                assert(cur =~= pre.push(elems@[i as int]@));
                assert(cur.drop_last() =~= pre);
                assert(joined(cur) == if i == 0 {
                    elems@[0]@
                } else {
                    joined(pre) + seq![',', ' '] + elems@[i as int]@
                });
            }
            i = i + 1;
        }
        out.append("]");
        proof {
            reveal_strlit("]");
            assert(str_views(elems@).subrange(0, elems@.len() as int) =~= str_views(self@));
            assert(out@ =~= rendered(str_views(self@)));
        }
        out
    }
}

} // verus!
