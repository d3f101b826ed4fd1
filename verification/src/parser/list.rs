use vstd::prelude::*;

use crate::text::{join, lemma_join_cons};

verus! {

/// An immutable, singly linked sequence of syntax nodes.
///
/// The syntax tree keeps its children in this list, so that the grammar
/// functions (which are mathematical functions over token sequences) can
/// build the very same values that the parser builds.
#[derive(Debug)]
pub enum List<T> {
    Nil,
    Cons(Box<T>, Box<List<T>>),
}

impl<T> List<T> {
    /// The elements, in order.
    pub open spec fn elems(self) -> Seq<T>
        decreases self,
    {
        match self {
            List::Nil => Seq::empty(),
            List::Cons(head, tail) => seq![*head] + (*tail).elems(),
        }
    }

    pub open spec fn spec_len(self) -> nat {
        self.elems().len()
    }

    /// `true` when the list holds no element.
    pub fn is_empty(&self) -> (r: bool)
        ensures
            r == (self.elems().len() == 0),
    {
        match self {
            List::Nil => true,
            List::Cons(_, _) => false,
        }
    }
}

/// The texts of the names, in order.
pub open spec fn names_text(l: List<String>) -> Seq<Seq<char>>
    decreases l,
{
    match l {
        List::Nil => Seq::empty(),
        List::Cons(h, t) => seq![(*h)@] + names_text(*t),
    }
}

/// Appends the names, with `sep` between neighbours.
pub(crate) fn write_names(l: &List<String>, sep: &str, out: &mut String) -> (ok: bool)
    ensures
        ok,
        final(out)@ == old(out)@ + join(names_text(*l), sep@),
    decreases l,
{
    match l {
        List::Nil => {
            assert(out@ =~= old(out)@ + join(names_text(*l), sep@));
        },
        List::Cons(h, t) => {
            let ghost start = out@;
            out.append(h.as_str());
            match &**t {
                List::Nil => {},
                List::Cons(_, _) => out.append(sep),
            }
            if !write_names(t, sep, out) {
                return false;
            }
            proof {
                lemma_join_cons((*h)@, names_text(**t), sep@);
                assert(out@ =~= start + join(names_text(*l), sep@));
            }
        },
    }
    true
}

} // verus!
