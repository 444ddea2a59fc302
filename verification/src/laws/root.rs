//! Laws of the check of the root configuration.

use vstd::prelude::*;

use crate::install::config::NixosApplyConfig;
use crate::install::error::InstallError;
use crate::install::root::{
    imports_aggregator, line_imports_aggregator, root_imports_aggregator, verify_root_config,
};
use crate::laws::text::{
    law_a_part_is_found, law_contained_text_stands_somewhere, law_the_last_line_needs_no_end,
    law_trimmed_text_is_the_middle, law_what_is_found_is_a_part, lemma_line_and_rest,
};
use crate::text::{contains_text, lines_of, starts_with, trimmed, white_space, without_cr};
use crate::text_lemmas::{blank, lemma_trimmed_pad};

verus! {

/// Whether `line` is a line of a text, with `before` and `after` around it.
pub open spec fn is_line(before: Seq<char>, line: Seq<char>, after: Seq<char>) -> bool {
    &&& before.len() > 0 ==> before.last() == '\n'
    &&& !line.contains('\n')
    &&& after.len() > 0 ==> after.first() == '\n'
}

/// Whether a line is a comment: some white space and then `#`.
pub open spec fn is_comment(line: Seq<char>) -> bool {
    exists|k: int| 0 <= k < line.len() && #[trigger] line[k] == '#' && blank(line.take(k))
}

/// Whether a line mentions the directory of generated modules.
pub open spec fn mentions_modules(line: Seq<char>) -> bool {
    exists|a: Seq<char>, b: Seq<char>| line == #[trigger] (a + "modules/ai-generated"@ + b)
}

/// A line counts exactly if it is no comment and mentions the directory.
proof fn lemma_line_counts(line: Seq<char>)
    ensures
        line_imports_aggregator(line) == (mentions_modules(line) && !is_comment(line)),
{
    reveal_strlit("#");
    reveal_strlit("modules/ai-generated");
    let lit = "modules/ai-generated"@;
    let t = trimmed(line);
    let k = law_trimmed_text_is_the_middle(line);
    let end = k + t.len();
    assert(forall|i: int| 0 <= i < t.len() ==> line[k + i] == t[i]) by {
        assert(forall|i: int| 0 <= i < t.len() ==> (line.take(k) + t + line.skip(end))[k + i]
            == t[i]);
    }
    // The mention.
    if contains_text(t, lit) {
        let a = law_contained_text_stands_somewhere(t, lit);
        let b = t.skip((a.len() + lit.len()) as int);
        assert(line =~= (line.take(k) + a) + lit + (b + line.skip(end)));
    }
    if mentions_modules(line) {
        let (a, b) = choose|a: Seq<char>, b: Seq<char>| line == #[trigger] (a + lit + b);
        let i = a.len() as int;
        let j = i + lit.len() - 1;
        assert(line[i] == lit[0]);
        assert(line[j] == lit[lit.len() - 1]);
        if i < k {
            assert(white_space(line.take(k)[i]));
        }
        if j >= end {
            assert(white_space(line.skip(end)[j - end]));
        }
        let x = t.take(i - k);
        let y = t.skip(j + 1 - k);
        assert(x + lit + y =~= t) by {
            assert forall|m: int| 0 <= m < t.len() implies (x + lit + y)[m] == t[m] by {
                if i - k <= m < i - k + lit.len() {
                    assert(line[k + m] == (a + lit + b)[k + m]);
                }
            }
        }
        law_a_part_is_found(x, lit, y);
    }
    // The comment.
    if starts_with(t, "#"@) {
        law_what_is_found_is_a_part(t, "#"@, 0);
        assert(t[0] == '#');
        assert(line[k] == '#');
    }
    if is_comment(line) {
        let m = choose|m: int| 0 <= m < line.len() && #[trigger] line[m] == '#' && blank(
            line.take(m),
        );
        if m < k {
            assert(white_space(line.take(k)[m]));
        } else if t.len() == 0 {
            assert(white_space(line.skip(end)[m - end]));
        } else if m > k {
            assert(line.take(m)[k] == line[k]);
            assert(white_space(line.take(m)[k]));
            assert(t[0] == line[k]);
        }
        assert(t[0] == '#');
        assert("#"@ + t.skip(1) =~= t);
        law_a_part_is_found(Seq::empty(), "#"@, t.skip(1));
    }
}

/// A carriage return at the end of a line does not matter.
proof fn lemma_without_cr_counts(line: Seq<char>)
    ensures
        line_imports_aggregator(without_cr(line)) == line_imports_aggregator(line),
{
    let none = Seq::<char>::empty();
    if line.len() > 0 && line.last() == '\r' {
        let rest = line.drop_last();
        let cr = seq!['\r'];
        assert(blank(cr)) by {
            assert(white_space('\r'));
        }
        lemma_trimmed_pad(none, rest, cr);
        assert(none + rest + cr =~= line);
    }
}

/// The first line of a text, and the text behind it.
proof fn lemma_first_line_counts(line: Seq<char>, rest: Seq<char>)
    requires
        !line.contains('\n'),
    ensures
        imports_aggregator(line.push('\n') + rest) == (line_imports_aggregator(line)
            || imports_aggregator(rest)),
{
    lemma_line_and_rest(line, rest);
    lemma_without_cr_counts(line);
    let all = lines_of(line.push('\n') + rest);
    let after = lines_of(rest);
    if line_imports_aggregator(line) {
        assert(line_imports_aggregator(all[0]));
    }
    if imports_aggregator(rest) {
        let i = choose|i: int| 0 <= i < after.len() && line_imports_aggregator(#[trigger] after[i]);
        assert(all[i + 1] == after[i]);
    }
    if imports_aggregator(line.push('\n') + rest) {
        let i = choose|i: int| 0 <= i < all.len() && line_imports_aggregator(#[trigger] all[i]);
        if i > 0 {
            assert(all[i] == after[i - 1]);
        }
    }
}

/// A text of one line.
proof fn lemma_only_line_counts(line: Seq<char>)
    requires
        !line.contains('\n'),
    ensures
        imports_aggregator(line) == line_imports_aggregator(line),
{
    law_the_last_line_needs_no_end(line);
    let all = lines_of(line);
    if line.len() == 0 {
        lemma_line_counts(line);
        if mentions_modules(line) {
            reveal_strlit("modules/ai-generated");
            let (a, b) = choose|a: Seq<char>, b: Seq<char>|
                line == #[trigger] (a + "modules/ai-generated"@ + b);
            assert((a + "modules/ai-generated"@ + b).len() >= 20);
        }
    } else if line_imports_aggregator(line) {
        assert(line_imports_aggregator(all[0]));
    }
}

/// The part of a text up to its first newline.
proof fn lemma_up_to_newline(s: Seq<char>) -> (k: int)
    ensures
        0 <= k <= s.len(),
        !s.take(k).contains('\n'),
        k < s.len() ==> s[k] == '\n',
    decreases s.len(),
{
    if s.len() == 0 {
        0
    } else if s[0] == '\n' {
        assert(s.take(0).len() == 0);
        0
    } else {
        let rest = s.skip(1);
        let k = lemma_up_to_newline(rest);
        let line = s.take(k + 1);
        assert(!line.contains('\n')) by {
            if line.contains('\n') {
                let i = line.index_of('\n');
                assert(line[i] == '\n');
                assert(rest.take(k)[i - 1] == '\n');
            }
        }
        k + 1
    }
}

/// A line that counts is enough.
proof fn lemma_counting_line_is_enough(before: Seq<char>, line: Seq<char>, after: Seq<char>)
    requires
        is_line(before, line, after),
        line_imports_aggregator(line),
    ensures
        imports_aggregator(before + line + after),
    decreases before.len(),
{
    let s = before + line + after;
    if before.len() == 0 {
        if after.len() == 0 {
            assert(s =~= line);
            lemma_only_line_counts(line);
        } else {
            let rest = after.skip(1);
            assert(s =~= line.push('\n') + rest);
            lemma_first_line_counts(line, rest);
        }
    } else {
        let k = lemma_up_to_newline(before);
        if k == before.len() {
            assert(before.take(k) =~= before);
            assert(before[before.len() - 1] == '\n');
            assert(before.contains('\n'));
        }
        let first = before.take(k);
        let more = before.skip(k + 1);
        if more.len() > 0 {
            assert(more.last() == before.last());
        }
        assert(s =~= first.push('\n') + (more + line + after));
        lemma_first_line_counts(first, more + line + after);
        lemma_counting_line_is_enough(more, line, after);
    }
}

/// A text that counts has a line that does: returns what goes before that line,
/// and the line.
proof fn lemma_counting_line_is_needed(s: Seq<char>) -> (found: (Seq<char>, Seq<char>))
    requires
        imports_aggregator(s),
    ensures
        found.0.len() + found.1.len() <= s.len(),
        s == found.0 + found.1 + s.skip((found.0.len() + found.1.len()) as int),
        is_line(found.0, found.1, s.skip((found.0.len() + found.1.len()) as int)),
        line_imports_aggregator(found.1),
    decreases s.len(),
{
    let k = lemma_up_to_newline(s);
    let line = s.take(k);
    let none = Seq::<char>::empty();
    if k == s.len() {
        assert(line =~= s);
        lemma_only_line_counts(s);
        assert(s =~= none + line + s.skip(k));
        (none, line)
    } else {
        let rest = s.skip(k + 1);
        assert(s =~= line.push('\n') + rest);
        lemma_first_line_counts(line, rest);
        if line_imports_aggregator(line) {
            assert(s =~= none + line + s.skip(k));
            assert(s.skip(k).first() == '\n');
            (none, line)
        } else {
            let (a, l) = lemma_counting_line_is_needed(rest);
            let before = line.push('\n') + a;
            if a.len() > 0 {
                assert(before.last() == a.last());
            } else {
                assert(before =~= line.push('\n'));
            }
            let n = (before.len() + l.len()) as int;
            assert(s.skip(n) =~= rest.skip((a.len() + l.len()) as int));
            assert(s =~= before + l + s.skip(n));
            (before, l)
        }
    }
}

/// A root configuration with a line that mentions `modules/ai-generated` and is no
/// comment imports the generated modules.
pub proof fn law_a_mention_outside_comments_imports(
    content: &str,
    r: bool,
    before: Seq<char>,
    line: Seq<char>,
    after: Seq<char>,
)
    requires
        call_ensures(root_imports_aggregator, (content,), r),
        content@ == before + line + after,
        is_line(before, line, after),
        mentions_modules(line),
        !is_comment(line),
    ensures
        r,
{
    lemma_line_counts(line);
    lemma_counting_line_is_enough(before, line, after);
}

/// A root configuration in which every line that mentions `modules/ai-generated`
/// is a comment does not import the generated modules.
pub proof fn law_commented_mentions_do_not_import(content: &str, r: bool)
    requires
        call_ensures(root_imports_aggregator, (content,), r),
        forall|before: Seq<char>, line: Seq<char>, after: Seq<char>|
            content@ == #[trigger] (before + line + after) && is_line(before, line, after)
                && mentions_modules(line) ==> is_comment(line),
    ensures
        !r,
{
    if r {
        let s = content@;
        let (before, line) = lemma_counting_line_is_needed(s);
        let after = s.skip((before.len() + line.len()) as int);
        lemma_line_counts(line);
        assert(s == before + line + after);
    }
}

/// The check passes exactly where a root configuration was read that imports the
/// generated modules. Where there is none, that is said; where it could not be
/// read, why; and otherwise which line to add to which file, and how to go on.
pub proof fn law_root_check_says_what_is_wrong(
    config: &NixosApplyConfig,
    read: Result<Option<String>, String>,
    r: Result<(), InstallError>,
)
    requires
        call_ensures(verify_root_config, (config, read), r),
    ensures
        r is Ok <==> (read matches Ok(Some(content)) && imports_aggregator(content@)),
        read matches Ok(None) ==> (r matches Err(InstallError::RootConfigMissing(path)) && path@
            == config.root_config_path@),
        read matches Err(message) ==> (r matches Err(InstallError::Io { path, source }) && path@
            == config.root_config_path@ && source@ == message@),
        read matches Ok(Some(content)) && !imports_aggregator(content@) ==> (r matches Err(
            InstallError::RootNotImporting { root_config, import, rebuild },
        ) && root_config@ == config.root_config_path@ && import@ == "./modules/ai-generated"@
            && rebuild@ == "sudo nixos-rebuild test"@),
{
    reveal_strlit("sudo ");
    reveal_strlit("nixos-rebuild ");
    reveal_strlit("test");
    reveal_strlit("sudo nixos-rebuild test");
    assert(config@.rebuild_text(true) =~= "sudo nixos-rebuild test"@);
}

} // verus!
