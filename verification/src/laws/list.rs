//! Laws of reading lists: an entry that was read is one entry wherever it stands
//! in a list, and a list is read entry by entry.

use vstd::prelude::*;

use crate::install::list::{
    closer, code_only, entries_after, entry_start, list_read, list_with, opener, place_after,
    ListView, Place, Seen,
};
use crate::text::{find_from, white_space};
use crate::text_lemmas::{blank, solid};

verus! {

/// The list in which only `s` was read.
pub open spec fn alone(s: Seq<char>) -> ListView {
    list_read(list_with(Seq::empty()), s)
}

/// Whether `s` is read as a part of one entry.
pub open spec fn unparted(s: Seq<char>) -> bool {
    &&& !alone(s).closed
    &&& alone(s).entries.len() == 0
    &&& alone(s).word == s
}

/// Whether `s` and all that it begins with are read as a part of one entry.
pub open spec fn entry_begins(s: Seq<char>) -> bool {
    forall|k: int| 0 <= k <= s.len() ==> unparted(#[trigger] s.take(k))
}

/// Whether `s` is one entry of a list: not empty, read as one, with nothing left
/// open.
pub open spec fn one_entry(s: Seq<char>) -> bool {
    &&& s.len() > 0
    &&& entry_begins(s)
    &&& alone(s).place.frames.len() == 0
}

// ── What was read ───────────────────────────────────────────────────────────

/// One more character that is read as a part of the entry.
pub(crate) proof fn lemma_entry_goes_on(s: Seq<char>, c: char)
    requires
        entry_begins(s),
        unparted(s.push(c)),
    ensures
        entry_begins(s.push(c)),
{
    let t = s.push(c);
    assert forall|k: int| 0 <= k <= t.len() implies unparted(#[trigger] t.take(k)) by {
        if k <= s.len() {
            assert(t.take(k) =~= s.take(k));
        } else {
            assert(t.take(k) =~= t);
        }
    }
}

/// What holds of a list while it is read: all entries are entries on their own,
/// and what was begun would be read the same on its own.
spec fn faithful(list: ListView) -> bool {
    &&& forall|i: int| 0 <= i < list.entries.len() ==> one_entry(#[trigger] list.entries[i])
    &&& !list.closed ==> {
        &&& entry_begins(list.word)
        &&& list.place.frames.len() > 1 ==> !(list.place.frames[0] is Line)
            && !(list.place.frames[0] is Block)
        &&& if list.place.frames.len() == 1 && list.place.in_comment() {
            list.word.len() == 0
        } else {
            alone(list.word).place == list.place
        }
    }
}

/// The beginning of nothing.
pub(crate) proof fn lemma_nothing_begun()
    ensures
        entry_begins(Seq::empty()),
        alone(Seq::empty()) == list_with(Seq::empty()),
{
    let e = Seq::<char>::empty();
    assert forall|k: int| 0 <= k <= e.len() implies unparted(#[trigger] e.take(k)) by {
        assert(e.take(k) =~= e);
    }
}

/// Behind a `/` in code, the text before it was code too.
proof fn lemma_before_slash(s: Seq<char>)
    requires
        entry_begins(s),
        alone(s).place.seen == Seen::Slash || alone(s).place.seen == Seen::Root,
        alone(s).place.frames.len() == 0,
    ensures
        s.len() > 0,
        entry_begins(s.drop_last()),
        alone(s.drop_last()).place.frames.len() == 0,
{
    lemma_nothing_begun();
    if s.len() == 0 {
        assert(s =~= Seq::empty());
    }
    let front = s.drop_last();
    assert(s.take(s.len() as int) =~= s);
    assert(front =~= s.take(s.len() - 1));
    assert forall|k: int| 0 <= k <= front.len() implies unparted(#[trigger] front.take(k)) by {
        assert(front.take(k) =~= s.take(k));
    }
    assert(unparted(front));
    assert(unparted(s));
    assert(alone(s) == alone(front).read(s.last()));
}

/// One more character keeps a list faithful.
proof fn lemma_faithful_step(list: ListView, c: char)
    requires
        faithful(list),
    ensures
        faithful(list.read(c)),
{
    lemma_nothing_begun();
    if !list.closed {
        let place = list.place;
        let word = list.word;
        let next = list.read(c);
        let top_comment = place.frames.len() == 1 && place.in_comment();
        if top_comment {
            assert(word =~= Seq::empty());
        } else {
            assert(word.take(word.len() as int) =~= word);
            assert(unparted(word));
            assert(word.push(c).drop_last() =~= word);
            assert(alone(word.push(c)) == alone(word).read(c));
            if place.frames.len() == 0 {
                if white_space(c) || c == ']' {
                    if word.len() > 0 {
                        assert(one_entry(word));
                    }
                } else if place.comment_at(c) is Some {
                    if place.comment_at(c)->0 is Block {
                        lemma_before_slash(word);
                        if word.drop_last().len() > 0 {
                            assert(one_entry(word.drop_last()));
                        }
                    } else if word.len() > 0 {
                        assert(one_entry(word));
                    }
                } else {
                    assert(next.word == word.push(c));
                    assert(unparted(word.push(c)));
                    lemma_entry_goes_on(word, c);
                    assert(next.place.frames.len() == 1 ==> !next.place.in_comment());
                }
            } else {
                assert(unparted(word.push(c)));
                lemma_entry_goes_on(word, c);
                assert(next.place.frames.len() > 0 ==> next.place.frames[0] == place.frames[0]);
                if place.frames.len() == 1 {
                    assert(place.frames.last() == place.frames[0]);
                }
                assert(!(place.frames[0] is Line) && !(place.frames[0] is Block));
            }
        }
    }
}

/// A list is faithful at every moment.
proof fn lemma_faithful(s: Seq<char>)
    ensures
        faithful(alone(s)),
    decreases s.len(),
{
    if s.len() == 0 {
        lemma_nothing_begun();
    } else {
        lemma_faithful(s.drop_last());
        lemma_faithful_step(alone(s.drop_last()), s.last());
    }
}

/// Whatever is read out of a list is one entry.
pub proof fn law_read_entries_are_entries(s: Seq<char>, key: Seq<char>, i: int)
    requires
        entries_after(s, key) matches Some(entries) && 0 <= i < entries.len(),
    ensures
        one_entry(entries_after(s, key)->0[i]),
{
    let code = code_only(s);
    let k = find_from(code, key, 0)->0;
    let open = find_from(code, seq!['['], k + key.len())->0;
    lemma_faithful(s.skip(open + 1));
}

// ── What will be read ───────────────────────────────────────────────────────

/// White space between entries is passed over.
pub proof fn lemma_blank_is_passed(entries: Seq<Seq<char>>, s: Seq<char>)
    requires
        blank(s),
    ensures
        list_read(list_with(entries), s) == list_with(entries),
    decreases s.len(),
{
    if s.len() > 0 {
        let front = s.drop_last();
        assert forall|i: int| 0 <= i < front.len() implies white_space(#[trigger] front[i]) by {
            assert(front[i] == s[i]);
        }
        lemma_blank_is_passed(entries, front);
        assert(white_space(s[s.len() - 1]));
    }
}

/// The beginning of an entry is read the same behind other entries.
pub(crate) proof fn lemma_entry_is_begun(entries: Seq<Seq<char>>, s: Seq<char>)
    requires
        entry_begins(s),
    ensures
        list_read(list_with(entries), s) == (ListView {
            place: alone(s).place,
            word: s,
            entries,
            closed: false,
        }),
    decreases s.len(),
{
    if s.len() == 0 {
        assert(s =~= Seq::empty());
        lemma_nothing_begun();
    } else {
        let front = s.drop_last();
        assert(s.take(s.len() as int) =~= s);
        assert(unparted(s));
        assert forall|k: int| 0 <= k <= front.len() implies unparted(#[trigger] front.take(k)) by {
            assert(front.take(k) =~= s.take(k));
        }
        lemma_entry_is_begun(entries, front);
        assert(front.take(front.len() as int) =~= front);
        assert(unparted(front));
        assert(alone(s) == alone(front).read(s.last()));
        assert(front.push(s.last()) =~= s);
    }
}

/// An entry and the white space behind it are read as that entry.
pub proof fn lemma_entry_is_read(entries: Seq<Seq<char>>, s: Seq<char>, c: char)
    requires
        one_entry(s),
        white_space(c),
    ensures
        list_read(list_with(entries), s.push(c)) == list_with(entries.push(s)),
{
    lemma_entry_is_begun(entries, s);
    assert(s.push(c).drop_last() =~= s);
}

/// Entries that were read stay.
pub proof fn lemma_entries_stay(list: ListView, s: Seq<char>)
    ensures
        list_read(list, s).entries.len() >= list.entries.len(),
        list_read(list, s).entries.take(list.entries.len() as int) == list.entries,
    decreases s.len(),
{
    let n = list.entries.len() as int;
    if s.len() == 0 {
        assert(list.entries.take(n) =~= list.entries);
    } else {
        lemma_entries_stay(list, s.drop_last());
        let before = list_read(list, s.drop_last());
        let now = list_read(list, s);
        assert forall|i: int| 0 <= i < n implies now.entries[i] == list.entries[i] by {
            assert(before.entries.take(n)[i] == before.entries[i]);
        }
        assert(now.entries.take(n) =~= list.entries);
    }
}

/// A path that begins with `.`, `<` or `~`, without white space and `]`, is one entry,
/// whatever else it holds.
pub proof fn law_path_is_one_entry(s: Seq<char>)
    requires
        s.len() > 0,
        s[0] == '.' || s[0] == '<' || s[0] == '~',
        solid(s),
        !s.contains(']'),
    ensures
        one_entry(s),
{
    assert forall|k: int| 0 <= k <= s.len() implies unparted(#[trigger] s.take(k)) by {
        lemma_path_begins(s, k);
    }
    lemma_path_begins(s, s.len() as int);
    assert(s.take(s.len() as int) =~= s);
}

/// How such a path is read.
proof fn lemma_path_begins(s: Seq<char>, k: int)
    requires
        s.len() > 0,
        s[0] == '.' || s[0] == '<' || s[0] == '~',
        solid(s),
        !s.contains(']'),
        0 <= k <= s.len(),
    ensures
        unparted(s.take(k)),
        alone(s.take(k)).place == if k == 0 {
            entry_start()
        } else {
            (Place { frames: Seq::empty(), seen: Seen::Path })
        },
    decreases k,
{
    if k == 0 {
        assert(s.take(0) =~= Seq::empty());
    } else {
        lemma_path_begins(s, k - 1);
        assert(s.take(k).drop_last() =~= s.take(k - 1));
        assert(s.take(k) =~= s.take(k - 1).push(s[k - 1]));
        assert(!white_space(s[k - 1]));
        assert(s.contains(s[k - 1]));
    }
}

/// Whether `c` is a plain part of an entry wherever it stands: no white space, no
/// bracket, no quote, and none of `#`, `*`, `$` and `\`.
pub open spec fn plain_char(c: char) -> bool {
    &&& !white_space(c)
    &&& !opener(c) && !closer(c)
    &&& c != '"' && c != '\'' && c != '#' && c != '*' && c != '$' && c != '\\'
}

/// How a text of plain characters is read.
proof fn lemma_plain_text_begins(s: Seq<char>, k: int)
    requires
        forall|i: int| 0 <= i < s.len() ==> plain_char(#[trigger] s[i]),
        0 <= k <= s.len(),
    ensures
        unparted(s.take(k)),
        alone(s.take(k)).place.frames.len() == 0,
    decreases k,
{
    if k == 0 {
        assert(s.take(0) =~= Seq::empty());
    } else {
        lemma_plain_text_begins(s, k - 1);
        assert(s.take(k).drop_last() =~= s.take(k - 1));
        assert(s.take(k) =~= s.take(k - 1).push(s[k - 1]));
        assert(plain_char(s[k - 1]));
        assert(alone(s.take(k)) == alone(s.take(k - 1)).read(s[k - 1]));
    }
}

/// A text without white space, brackets, quotes, `#`, `*`, `$` and `\` is one
/// entry, such as `b.nix`.
pub proof fn law_plain_text_is_one_entry(s: Seq<char>)
    requires
        s.len() > 0,
        forall|i: int| 0 <= i < s.len() ==> plain_char(#[trigger] s[i]),
    ensures
        one_entry(s),
{
    assert forall|k: int| 0 <= k <= s.len() implies unparted(#[trigger] s.take(k)) by {
        lemma_plain_text_begins(s, k);
    }
    lemma_plain_text_begins(s, s.len() as int);
    assert(s.take(s.len() as int) =~= s);
}

// ── Code ────────────────────────────────────────────────────────────────────

/// Whether `c` opens and closes nothing, wherever in code it stands.
pub open spec fn quiet(c: char) -> bool {
    &&& !opener(c) && !closer(c)
    &&& c != '"' && c != '\'' && c != '#' && c != '/' && c != '*' && c != '$' && c != '\\'
}

/// Outside lists no entry begins.
pub proof fn lemma_no_entry_in_code(s: Seq<char>)
    ensures
        !(place_after(s).seen is Start),
        !(place_after(s).seen is Path),
        !(place_after(s).seen is Root),
    decreases s.len(),
{
    if s.len() > 0 {
        lemma_no_entry_in_code(s.drop_last());
    }
}

/// Characters that open and close nothing leave the frames of code alone.
pub proof fn lemma_quiet_code(a: Seq<char>, b: Seq<char>)
    requires
        place_after(a).in_code(),
        forall|i: int| 0 <= i < b.len() ==> quiet(#[trigger] b[i]),
    ensures
        place_after(a + b).frames == place_after(a).frames,
    decreases b.len(),
{
    if b.len() == 0 {
        assert(a + b =~= a);
    } else {
        let front = b.drop_last();
        assert forall|i: int| 0 <= i < front.len() implies quiet(#[trigger] front[i]) by {
            assert(front[i] == b[i]);
        }
        lemma_quiet_code(a, front);
        assert((a + b).drop_last() =~= a + front);
        assert(quiet(b[b.len() - 1]));
    }
}

} // verus!
