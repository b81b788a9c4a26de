//! The htpasswd text of a table: one `username:hash` line per entry.

use vstd::prelude::*;
use crate::crypt_format::bcrypt_form;
use crate::entries::{names, upsert};

verus! {

/// The line of one entry: the user name, a colon, the hash and a newline.
pub open spec fn line(name: Seq<char>, hash: Seq<char>) -> Seq<char> {
    name + seq![':'] + hash + seq!['\n']
}

/// The lines of the entries in their order, one after the other, with
/// nothing before, between or after them.
pub open spec fn render(entries: Seq<(Seq<char>, Seq<char>)>) -> Seq<char>
    decreases entries.len(),
{
    if entries.len() == 0 {
        Seq::empty()
    } else {
        render(entries.drop_last()) + line(entries.last().0, entries.last().1)
    }
}

/// The text of a table grows by the line of the entry that is appended.
pub proof fn lemma_render_push(entries: Seq<(Seq<char>, Seq<char>)>, name: Seq<char>, hash: Seq<char>)
    ensures
        render(entries.push((name, hash))) == render(entries) + line(name, hash),
{
    assert(entries.push((name, hash)).drop_last() =~= entries);
}

/// Setting a user that the table does not hold yet adds exactly that
/// user's line at the end of the text.
pub proof fn lemma_render_new_user(
    entries: Seq<(Seq<char>, Seq<char>)>,
    name: Seq<char>,
    hash: Seq<char>,
)
    requires
        !names(entries).contains(name),
    ensures
        render(upsert(entries, name, hash)) == render(entries) + line(name, hash),
{
    lemma_render_push(entries, name, hash);
}

/// Setting a user on an empty table gives a text of exactly one line.
pub proof fn lemma_render_first_user(name: Seq<char>, hash: Seq<char>)
    ensures
        render(upsert(Seq::empty(), name, hash)) == line(name, hash),
{
    let none = Seq::<(Seq<char>, Seq<char>)>::empty();
    assert(!names(none).contains(name));
    lemma_render_push(none, name, hash);
    assert(render(none) + line(name, hash) =~= line(name, hash));
}

/// Where a user that the table did not hold was set with bcrypt at
/// `cost`, the text is the text before, followed by exactly one line: the
/// user name, a colon, a hash string with version tag `2a` and that cost,
/// and a newline.
pub proof fn lemma_set_adds_one_bcrypt_line(
    before: Seq<(Seq<char>, Seq<char>)>,
    after: Seq<(Seq<char>, Seq<char>)>,
    name: Seq<char>,
    cost: u32,
)
    requires
        !names(before).contains(name),
        exists|h: Seq<char>| bcrypt_form(h, cost) && after == #[trigger] upsert(before, name, h),
    ensures
        exists|h: Seq<char>|
            bcrypt_form(h, cost) && render(after) == render(before) + #[trigger] line(name, h),
{
    let h = choose|h: Seq<char>| bcrypt_form(h, cost) && after == #[trigger] upsert(before, name, h);
    lemma_render_new_user(before, name, h);
    assert(render(after) == render(before) + line(name, h));
}

} // verus!
