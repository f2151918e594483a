//! A prefix tree of words over the letters `a` to `z`.

use vstd::prelude::*;
use vstd::string::*;

verus! {

/// Whether every character of a word is one of the letters `a` to `z`.
pub open spec fn is_lowercase(w: Seq<char>) -> bool {
    forall|i: int| 0 <= i < w.len() ==> 'a' <= #[trigger] w[i] <= 'z'
}

/// The place of a letter among the children of a node.
pub open spec fn slot(c: char) -> int {
    c as int - 'a' as int
}

/// A node of the tree: the letter that leads to it, whether a word ends at
/// it, and one child for each letter that goes on from it.
pub struct Node {
    letter: char,
    children: Vec<Option<Box<Node>>>,
    end_of_word: bool,
}

/// The tree: one child for each letter that a word starts with.
pub struct Trie {
    root: Vec<Option<Box<Node>>>,
}

/// Whether a row of children has a place for each of the 26 letters and
/// every child is well formed and stands at the place of its letter.
pub closed spec fn children_wf(children: Seq<Option<Box<Node>>>) -> bool
    decreases children,
{
    &&& children.len() == 26
    &&& forall|i: int|
        0 <= i < children.len() ==> match #[trigger] children[i] {
            Some(child) => slot(child.letter) == i && child.wf(),
            None => true,
        }
}

/// Whether a row of children holds the word `w`: `w` is not empty, and its
/// rest is held by the child at the place of its first letter.
pub closed spec fn children_hold(children: Seq<Option<Box<Node>>>, w: Seq<char>) -> bool
    decreases w.len(), 1int,
{
    &&& w.len() > 0
    &&& 0 <= slot(w[0]) < children.len()
    &&& match children[slot(w[0])] {
        Some(child) => child.holds(w.skip(1)),
        None => false,
    }
}

impl Node {
    pub closed spec fn wf(&self) -> bool
        decreases self,
    {
        children_wf(self.children@)
    }

    /// Whether the word `w` leads from this node to the end of a word.
    pub closed spec fn holds(&self, w: Seq<char>) -> bool
        decreases w.len(), 2int,
    {
        if w.len() == 0 {
            self.end_of_word
        } else {
            children_hold(self.children@, w)
        }
    }

    /// The letter that leads to this node.
    pub closed spec fn letter(&self) -> char {
        self.letter
    }

    /// A node without children.
    pub fn new(l: char, eow: bool) -> (r: Node)
        ensures
            r.wf(),
            r.letter() == l,
            r@ == (if eow {
                set![Seq::<char>::empty()]
            } else {
                Set::<Seq<char>>::empty()
            }),
    {
        let r = Node { letter: l, children: no_children(), end_of_word: eow };
        assert forall|w: Seq<char>| r.holds(w) <==> (eow && w == Seq::<char>::empty()) by {
            if w.len() == 0 {
                assert(w =~= Seq::<char>::empty());
                assert(r.holds(w) == eow);
            } else {
                assert(!children_hold(r.children@, w));
                assert(!r.holds(w));
            }
        }
        assert(r@ =~= (if eow {
            set![Seq::<char>::empty()]
        } else {
            Set::<Seq<char>>::empty()
        }));
        r
    }

    /// Adds the word below this node.
    pub fn insert(&mut self, word: &str)
        requires
            old(self).wf(),
            is_lowercase(word@),
        ensures
            final(self).wf(),
            final(self).letter() == old(self).letter(),
            final(self)@ == old(self)@.insert(word@),
        decreases word@.len(),
    {
        let n = word.unicode_len();
        if n == 0 {
            self.end_of_word = true;
            assert forall|w: Seq<char>| self.holds(w) <==> (old(self).holds(w) || w == word@) by {
                if w.len() == 0 {
                    assert(w =~= word@);
                }
            }
            assert(self@ =~= old(self)@.insert(word@));
            return;
        }
        insert_below(&mut self.children, word);
        assert forall|w: Seq<char>| self.holds(w) <==> (old(self).holds(w) || w == word@) by {
            if w.len() == 0 {
                assert(self.holds(w) == self.end_of_word);
                assert(old(self).holds(w) == old(self).end_of_word);
            } else {
                assert(self.holds(w) == children_hold(self.children@, w));
                assert(old(self).holds(w) == children_hold(old(self).children@, w));
            }
        }
        assert(self@ =~= old(self)@.insert(word@));
    }

    /// Whether the word leads from this node to the end of a word.
    pub fn contains(&self, word: &str) -> (r: bool)
        requires
            self.wf(),
        ensures
            r == self@.contains(word@),
        decreases word@.len(),
    {
        let n = word.unicode_len();
        if n == 0 {
            return self.end_of_word;
        }
        contains_below(&self.children, word)
    }
}

impl View for Node {
    type V = Set<Seq<char>>;

    /// The words that lead from this node to the end of a word.
    closed spec fn view(&self) -> Set<Seq<char>> {
        Set::new(|w: Seq<char>| self.holds(w))
    }
}

/// A row of 26 places without a child.
fn no_children() -> (r: Vec<Option<Box<Node>>>)
    ensures
        children_wf(r@),
        forall|w: Seq<char>| !children_hold(r@, w),
{
    let mut r: Vec<Option<Box<Node>>> = Vec::new();
    while r.len() < 26
        invariant
            r.len() <= 26,
            forall|i: int| 0 <= i < r.len() ==> r@[i] is None,
        decreases 26 - r.len(),
    {
        r.push(None);
    }
    r
}

/// Adds a word that is not empty to a row of children.
fn insert_below(children: &mut Vec<Option<Box<Node>>>, word: &str)
    requires
        children_wf(old(children)@),
        is_lowercase(word@),
        word@.len() > 0,
    ensures
        children_wf(final(children)@),
        forall|w: Seq<char>|
            children_hold(final(children)@, w) <==> (children_hold(old(children)@, w) || w
                == word@),
    decreases word@.len(), 0int,
{
    let n = word.unicode_len();
    let c = word.get_char(0);
    let index = (c as u32 - 'a' as u32) as usize;
    let rest = word.substring_char(1, n);
    assert(rest@ =~= word@.skip(1));
    assert(is_lowercase(rest@)) by {
        assert forall|i: int| 0 <= i < rest@.len() implies 'a' <= #[trigger] rest@[i] <= 'z' by {
            assert(rest@[i] == word@[i + 1]);
        }
    }
    let mut child = match children[index].take() {
        Some(child) => child,
        None => Box::new(Node::new(c, false)),
    };
    let ghost before = *child;
    assert(forall|x: Seq<char>|
        before.holds(x) <==> children_hold(old(children)@, seq![c] + x)) by {
        assert forall|x: Seq<char>|
            before.holds(x) <==> children_hold(old(children)@, seq![c] + x) by {
            assert((seq![c] + x).skip(1) =~= x);
            assert(before@.contains(x) == before.holds(x));
        }
    }
    child.insert(rest);
    let ghost after = *child;
    children[index] = Some(child);
    proof {
        assert forall|w: Seq<char>|
            children_hold(children@, w) <==> (children_hold(old(children)@, w) || w
                == word@) by {
            if w.len() > 0 {
                let x = w.skip(1);
                assert(w =~= seq![w[0]] + x);
                assert(word@ =~= seq![c] + rest@);
                if slot(w[0]) == index as int {
                    assert(w[0] == c);
                    assert(after@.contains(x) == after.holds(x));
                    assert(before@.contains(x) == before.holds(x));
                    assert(after@.contains(x) <==> (before@.contains(x) || x == rest@));
                } else if 0 <= slot(w[0]) < 26 {
                    assert(children@[slot(w[0])] == old(children)@[slot(w[0])]);
                }
            }
        }
    }
}

/// Whether a row of children holds a word that is not empty.
fn contains_below(children: &Vec<Option<Box<Node>>>, word: &str) -> (r: bool)
    requires
        children_wf(children@),
        word@.len() > 0,
    ensures
        r == children_hold(children@, word@),
    decreases word@.len(), 0int,
{
    let n = word.unicode_len();
    let c = word.get_char(0);
    if !(c >= 'a' && c <= 'z') {
        return false;
    }
    let index = (c as u32 - 'a' as u32) as usize;
    let rest = word.substring_char(1, n);
    assert(rest@ =~= word@.skip(1));
    match &children[index] {
        Some(child) => child.contains(rest),
        None => false,
    }
}

impl Trie {
    pub closed spec fn wf(&self) -> bool {
        children_wf(self.root@)
    }

    /// A tree that holds no word.
    pub fn new() -> (r: Trie)
        ensures
            r.wf(),
            r@ == Set::<Seq<char>>::empty(),
    {
        let r = Trie { root: no_children() };
        assert(r@ =~= Set::<Seq<char>>::empty());
        r
    }

    /// Adds a word to the tree. The empty word is no word: the tree stays as
    /// it is.
    pub fn insert(&mut self, word: &str)
        requires
            old(self).wf(),
            is_lowercase(word@),
        ensures
            final(self).wf(),
            final(self)@ == (if word@.len() == 0 {
                old(self)@
            } else {
                old(self)@.insert(word@)
            }),
    {
        if word.unicode_len() == 0 {
            return;
        }
        insert_below(&mut self.root, word);
        assert(self@ =~= old(self)@.insert(word@));
    }

    /// Whether the word is in the tree.
    pub fn contains(&self, word: &str) -> (r: bool)
        requires
            self.wf(),
        ensures
            r == self@.contains(word@),
    {
        if word.unicode_len() == 0 {
            return false;
        }
        contains_below(&self.root, word)
    }
}

impl View for Trie {
    type V = Set<Seq<char>>;

    /// The words in the tree.
    closed spec fn view(&self) -> Set<Seq<char>> {
        Set::new(|w: Seq<char>| children_hold(self.root@, w))
    }
}

} // verus!
