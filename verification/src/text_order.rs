//! The order of texts, and search in lists that are sorted by login.

use std::sync::Arc;
use vstd::prelude::*;

use crate::text::chars_of;

verus! {

/// Whether one text stands before another: texts are ordered by their first differing characters,
/// and a text stands before its continuations.
pub open spec fn before(a: Seq<char>, b: Seq<char>) -> bool
    decreases a.len(),
{
    if b.len() == 0 {
        false
    } else if a.len() == 0 {
        true
    } else if a[0] != b[0] {
        (a[0] as int) < (b[0] as int)
    } else {
        before(a.drop_first(), b.drop_first())
    }
}

/// How one text stands to another.
#[derive(Debug, Clone, Copy, PartialEq, Eq, Structural)]
pub enum TextOrder {
    Before,
    Same,
    After,
}

/// How one text stands to another.
pub open spec fn spec_text_order(a: Seq<char>, b: Seq<char>) -> TextOrder {
    if before(a, b) {
        TextOrder::Before
    } else if before(b, a) {
        TextOrder::After
    } else {
        TextOrder::Same
    }
}

/// Of two texts that differ, exactly one stands before the other.
pub proof fn law_texts_are_ordered(a: Seq<char>, b: Seq<char>)
    ensures
        !(before(a, b) && before(b, a)),
        !before(a, b) && !before(b, a) <==> a == b,
    decreases a.len(),
{
    if a.len() > 0 && b.len() > 0 {
        law_texts_are_ordered(a.drop_first(), b.drop_first());
        if a[0] == b[0] && a.drop_first() == b.drop_first() {
            assert(a =~= seq![a[0]] + a.drop_first());
            assert(b =~= seq![b[0]] + b.drop_first());
            assert(a =~= b);
        }
    } else if a.len() == 0 && b.len() == 0 {
        assert(a =~= b);
    }
}

/// The order of texts is transitive.
pub proof fn law_text_order_is_transitive(a: Seq<char>, b: Seq<char>, c: Seq<char>)
    requires
        before(a, b),
        before(b, c),
    ensures
        before(a, c),
    decreases a.len(),
{
    if a.len() > 0 && b.len() > 0 && c.len() > 0 && a[0] == b[0] && b[0] == c[0] {
        law_text_order_is_transitive(a.drop_first(), b.drop_first(), c.drop_first());
    }
}

/// Tells how one text stands to another.
pub fn text_order(a: &str, b: &str) -> (order: TextOrder)
    ensures
        order == spec_text_order(a@, b@),
        order == TextOrder::Same <==> a@ == b@,
{
    proof {
        law_texts_are_ordered(a@, b@);
    }
    let first = chars_of(a);
    let second = chars_of(b);
    let mut i: usize = 0;
    assert(first@.skip(0) =~= first@);
    assert(second@.skip(0) =~= second@);
    while i < first.len() && i < second.len()
        invariant
            i <= first@.len(),
            i <= second@.len(),
            first@ == a@,
            second@ == b@,
            before(a@, b@) == before(first@.skip(i as int), second@.skip(i as int)),
            before(b@, a@) == before(second@.skip(i as int), first@.skip(i as int)),
        decreases first@.len() - i,
    {
        let x = first[i];
        let y = second[i];
        if x != y {
            proof {
                law_texts_are_ordered(first@.skip(i as int), second@.skip(i as int));
            }
            return if x < y {
                TextOrder::Before
            } else {
                TextOrder::After
            };
        }
        assert(first@.skip(i as int).drop_first() =~= first@.skip(i + 1));
        assert(second@.skip(i as int).drop_first() =~= second@.skip(i + 1));
        i = i + 1;
    }
    if i < second.len() {
        TextOrder::Before
    } else if i < first.len() {
        TextOrder::After
    } else {
        TextOrder::Same
    }
}

/// Something that belongs to a login.
pub trait HasLogin {
    /// The login.
    spec fn login(&self) -> Seq<char>;

    /// The login.
    fn github_login(&self) -> (login: &String)
        ensures
            login@ == self.login(),
    ;
}

/// Whether a list is sorted by login.
pub open spec fn sorted_by_login<T: HasLogin>(list: Seq<Arc<T>>) -> bool {
    forall|i: int, j: int|
        0 <= i <= j < list.len() ==> !before(#[trigger] list[j].login(), #[trigger] list[i].login())
}

/// Whether some item of a list belongs to a login.
pub open spec fn has_login<T: HasLogin>(list: Seq<Arc<T>>, login: Seq<char>) -> bool {
    exists|i: int| 0 <= i < list.len() && #[trigger] list[i].login() == login
}

/// Tells whether some item of a sorted list belongs to a login, by bisection.
pub fn contains_login<T: HasLogin>(list: &Vec<Arc<T>>, login: &str) -> (result: bool)
    requires
        sorted_by_login(list@),
    ensures
        result == has_login(list@, login@),
{
    let mut low: usize = 0;
    let mut high: usize = list.len();
    while low < high
        invariant
            low <= high <= list@.len(),
            sorted_by_login(list@),
            forall|i: int| 0 <= i < low ==> before(#[trigger] list@[i].login(), login@),
            forall|i: int| high <= i < list@.len() ==> before(login@, #[trigger] list@[i].login()),
        decreases high - low,
    {
        let middle: usize = low + (high - low) / 2;
        let ghost found = list@[middle as int].login();
        match text_order(list[middle].github_login().as_str(), login) {
            TextOrder::Same => {
                assert(list@[middle as int].login() == login@);
                return true;
            },
            TextOrder::Before => {
                assert forall|i: int| 0 <= i < middle + 1 implies before(
                    #[trigger] list@[i].login(),
                    login@,
                ) by {
                    law_texts_are_ordered(list@[i].login(), found);
                    if list@[i].login() != found {
                        law_text_order_is_transitive(list@[i].login(), found, login@);
                    }
                }
                low = middle + 1;
            },
            TextOrder::After => {
                assert forall|i: int| middle <= i < list@.len() implies before(
                    login@,
                    #[trigger] list@[i].login(),
                ) by {
                    law_texts_are_ordered(found, list@[i].login());
                    if list@[i].login() != found {
                        law_text_order_is_transitive(login@, found, list@[i].login());
                    }
                }
                high = middle;
            },
        }
    }
    proof {
        assert forall|i: int| 0 <= i < list@.len() implies #[trigger] list@[i].login()
            != login@ by {
            law_texts_are_ordered(login@, login@);
        }
    }
    false
}

/// Texts are ordered by the first character in which they differ, and a text stands before its
/// continuations.
pub proof fn law_first_difference_decides(
    common: Seq<char>,
    x: char,
    y: char,
    a: Seq<char>,
    b: Seq<char>,
)
    requires
        (x as int) < (y as int),
    ensures
        before(common + seq![x] + a, common + seq![y] + b),
        !before(common + seq![y] + b, common + seq![x] + a),
        before(common, common + seq![x] + a),
        !before(common + seq![x] + a, common),
        !before(common, common),
    decreases common.len(),
{
    if common.len() == 0 {
        assert((common + seq![x] + a)[0] == x);
        assert((common + seq![y] + b)[0] == y);
    } else {
        let rest = common.drop_first();
        law_first_difference_decides(rest, x, y, a, b);
        assert((common + seq![x] + a).drop_first() =~= rest + seq![x] + a);
        assert((common + seq![y] + b).drop_first() =~= rest + seq![y] + b);
        assert((common + seq![x] + a)[0] == common[0]);
        assert((common + seq![y] + b)[0] == common[0]);
    }
}

} // verus!
