//! Thumbnailers as freedesktop `.thumbnailer` files describe them: the command
//! line built from an `Exec` template, and the MIME types a `MimeType` entry
//! lists.

use crate::text::{chars_of, owned, str_eq, string_from_chars, string_views};
use vstd::prelude::*;

verus! {

/// The words `shlex::split` splits a command line into, the way a POSIX
/// shell would; none when the quoting is unbalanced.
pub uninterp spec fn shell_words(s: Seq<char>) -> Option<Seq<Seq<char>>>;

/// The words of `s`, by `shlex::split`.
#[verifier::external_body]
fn split_words(s: &str) -> (r: Option<Vec<String>>)
    ensures
        match r {
            Some(v) => shell_words(s@) == Some(v@.map_values(|w: String| w@)),
            None => shell_words(s@) is None,
        },
{
    shlex::split(s)
}

/// The character of the decimal digit `d`.
pub open spec fn digit_char(d: nat) -> char {
    (('0' as u32) + d) as char
}

/// `n` written in decimal, as `format!("{n}")` writes it.
pub open spec fn decimal(n: nat) -> Seq<char>
    decreases n,
{
    if n < 10 {
        seq![digit_char(n)]
    } else {
        decimal(n / 10).push(digit_char(n % 10))
    }
}

/// `n` in decimal.
pub fn decimal_string(n: u32) -> (r: String)
    ensures
        r@ == decimal(n as nat),
{
    let mut digits: Vec<char> = Vec::new();
    let mut m: u32 = n;
    while m >= 10
        invariant
            decimal(n as nat) == decimal(m as nat) + digits@,
        decreases m,
    {
        let d = m % 10;
        let c = (48u8 + d as u8) as char;
        assert(c == digit_char(d as nat));
        assert(decimal(m as nat) == decimal((m / 10) as nat).push(c));
        let ghost before = digits@;
        digits.insert(0, c);
        assert(digits@ =~= seq![c] + before);
        assert(decimal(m as nat) + before =~= decimal((m / 10) as nat) + digits@);
        m = m / 10;
    }
    let c = (48u8 + m as u8) as char;
    assert(c == digit_char(m as nat));
    assert(decimal(m as nat) == seq![c]);
    let ghost before = digits@;
    digits.insert(0, c);
    assert(digits@ =~= seq![c] + before);
    string_from_chars(&digits)
}

/// What one argument of an `Exec` template becomes: `%i` and `%u` the input,
/// `%o` the output, `%s` the size; another `%` code is not supported, and a
/// plain word stays as it is.
pub open spec fn expand_arg(arg: Seq<char>, input: Seq<char>, output: Seq<char>, size: u32) -> Option<
    Seq<char>,
> {
    if arg.len() > 0 && arg[0] == '%' {
        if arg == "%i"@ || arg == "%u"@ {
            Some(input)
        } else if arg == "%o"@ {
            Some(output)
        } else if arg == "%s"@ {
            Some(decimal(size as nat))
        } else {
            None
        }
    } else {
        Some(arg)
    }
}

/// The arguments `words` become, none when one of them cannot be expanded.
pub open spec fn expand_args(words: Seq<Seq<char>>, input: Seq<char>, output: Seq<char>, size: u32) -> Option<
    Seq<Seq<char>>,
>
    decreases words.len(),
{
    if words.len() == 0 {
        Some(seq![])
    } else {
        match (expand_args(words.drop_last(), input, output, size), expand_arg(words.last(), input, output, size)) {
            (Some(before), Some(a)) => Some(before.push(a)),
            _ => None,
        }
    }
}

/// The command line an `Exec` template split into `words` gives: the
/// program, then each argument expanded.
pub open spec fn command_line(words: Seq<Seq<char>>, input: Seq<char>, output: Seq<char>, size: u32) -> Option<
    Seq<Seq<char>>,
> {
    if words.len() == 0 {
        None
    } else {
        match expand_args(words.drop_first(), input, output, size) {
            Some(rest) => Some(seq![words[0]] + rest),
            None => None,
        }
    }
}

/// The command line that runs a thumbnailer whose `Exec` template has been
/// split into `words`, for `input`, writing `output` at `size` pixels: the
/// program first, then its arguments.
pub fn command_args(words: &[String], input: &str, output: &str, size: u32) -> (r: Option<Vec<String>>)
    ensures
        match r {
            Some(v) => command_line(string_views(words@), input@, output@, size) == Some(string_views(v@)),
            None => command_line(string_views(words@), input@, output@, size) is None,
        },
{
    let ghost ws = string_views(words@);
    if words.len() == 0 {
        return None;
    }
    let mut out: Vec<String> = Vec::new();
    out.push(words[0].clone());
    let mut i: usize = 1;
    while i < words.len()
        invariant
            1 <= i <= words@.len(),
            ws == string_views(words@),
            expand_args(ws.drop_first().take(i - 1), input@, output@, size) == Some(
                string_views(out@).drop_first(),
            ),
            string_views(out@).len() >= 1,
            string_views(out@)[0] == ws[0],
        decreases words@.len() - i,
    {
        let ghost pre = ws.drop_first().take(i - 1);
        assert(ws.drop_first().take(i as int).drop_last() =~= pre);
        assert(ws.drop_first().take(i as int).last() == words@[i as int]@);
        let arg = &words[i];
        let cs = chars_of(arg.as_str());
        let is_code = cs.len() > 0 && cs[0] == '%';
        let expanded: Option<String> = if is_code {
            if str_eq(arg.as_str(), "%i") || str_eq(arg.as_str(), "%u") {
                Some(owned(input))
            } else if str_eq(arg.as_str(), "%o") {
                Some(owned(output))
            } else if str_eq(arg.as_str(), "%s") {
                Some(decimal_string(size))
            } else {
                None
            }
        } else {
            Some(arg.clone())
        };
        match expanded {
            Some(a) => {
                let ghost before = out@;
                out.push(a);
                assert(string_views(out@).drop_first() =~= string_views(before).drop_first().push(a@));
            },
            None => {
                assert(expand_args(ws.drop_first().take(i as int), input@, output@, size) is None);
                assert(ws.drop_first().take(ws.len() - 1) =~= ws.drop_first());
                proof {
                    lemma_expand_none_extends(ws.drop_first(), input@, output@, size, i as int);
                }
                return None;
            },
        }
        i = i + 1;
    }
    assert(ws.drop_first().take(words@.len() - 1) =~= ws.drop_first());
    assert(string_views(out@) =~= seq![ws[0]] + string_views(out@).drop_first());
    Some(out)
}

/// Once a prefix of the words fails to expand, so do all the words.
proof fn lemma_expand_none_extends(words: Seq<Seq<char>>, input: Seq<char>, output: Seq<char>, size: u32, n: int)
    requires
        0 <= n <= words.len(),
        expand_args(words.take(n), input, output, size) is None,
    ensures
        expand_args(words, input, output, size) is None,
    decreases words.len() - n,
{
    if n < words.len() {
        assert(words.take(n + 1).drop_last() =~= words.take(n));
        lemma_expand_none_extends(words, input, output, size, n + 1);
    } else {
        assert(words.take(n) =~= words);
    }
}

/// A program that makes thumbnails, by the `Exec` template of its
/// `.thumbnailer` file.
#[derive(Clone, Debug)]
pub struct Thumbnailer {
    pub exec_line: String,
}

impl Thumbnailer {
    /// The command line that thumbnails `input` into `output` at
    /// `thumbnail_size` pixels: the program, then its arguments. None when
    /// the template does not split into words, is empty, or uses a `%` code
    /// other than `%i`, `%u`, `%o` and `%s`.
    pub fn command(&self, input: &str, output: &str, thumbnail_size: u32) -> (r: Option<Vec<String>>)
        ensures
            match shell_words(self.exec_line@) {
                None => r is None,
                Some(words) => match r {
                    Some(v) => command_line(words, input@, output@, thumbnail_size) == Some(string_views(v@)),
                    None => command_line(words, input@, output@, thumbnail_size) is None,
                },
            },
    {
        let words = match split_words(self.exec_line.as_str()) {
            Some(w) => w,
            None => return None,
        };
        command_args(&words, input, output, thumbnail_size)
    }
}

/// The pieces `s` falls into at each `;`.
pub open spec fn pieces(s: Seq<char>) -> Seq<Seq<char>>
    decreases s.len(),
{
    if s.len() == 0 {
        seq![seq![]]
    } else {
        let before = pieces(s.drop_last());
        if s.last() == ';' {
            before.push(seq![])
        } else {
            before.update(before.len() - 1, before.last().push(s.last()))
        }
    }
}

/// The entries of a `;`-separated list, as `str::split_terminator` gives
/// them: every piece, but a last one that is empty.
pub open spec fn list_entries(s: Seq<char>) -> Seq<Seq<char>> {
    let p = pieces(s);
    if p.last().len() == 0 {
        p.drop_last()
    } else {
        p
    }
}

proof fn lemma_pieces_nonempty(s: Seq<char>)
    ensures
        pieces(s).len() >= 1,
    decreases s.len(),
{
    if s.len() > 0 {
        lemma_pieces_nonempty(s.drop_last());
    }
}

/// The MIME types of a `MimeType` entry.
pub fn mime_types(entry: &str) -> (r: Vec<String>)
    ensures
        string_views(r@) == list_entries(entry@),
{
    let cs = chars_of(entry);
    let mut done: Vec<String> = Vec::new();
    let mut current: Vec<char> = Vec::new();
    let mut i: usize = 0;
    while i < cs.len()
        invariant
            i <= cs@.len(),
            string_views(done@).push(current@) == pieces(cs@.take(i as int)),
        decreases cs@.len() - i,
    {
        proof {
            lemma_pieces_nonempty(cs@.take(i as int));
        }
        assert(cs@.take(i + 1).drop_last() =~= cs@.take(i as int));
        let c = cs[i];
        if c == ';' {
            let ghost before = done@;
            done.push(string_from_chars(&current));
            assert(string_views(done@) =~= string_views(before).push(current@));
            current = Vec::new();
            assert(string_views(done@).push(current@) =~= pieces(cs@.take(i as int)).push(seq![]));
        } else {
            let ghost before = current@;
            current.push(c);
            assert(string_views(done@).push(current@) =~= string_views(done@).push(before).update(
                string_views(done@).len() as int,
                before.push(c),
            ));
        }
        i = i + 1;
    }
    assert(cs@.take(cs@.len() as int) =~= cs@);
    if current.len() > 0 {
        let ghost before = done@;
        done.push(string_from_chars(&current));
        assert(string_views(done@) =~= string_views(before).push(current@));
    } else {
        assert(string_views(done@) =~= string_views(done@).push(current@).drop_last());
    }
    done
}

/// What `freedesktop_desktop_entry::GenericEntry::from_str` makes of the
/// text of a `.thumbnailer` file: none when it does not parse; otherwise,
/// of its `[Thumbnailer Entry]` group if it has one, the values of
/// `TryExec`, `Exec` and `MimeType`.
pub uninterp spec fn thumbnailer_entry(text: Seq<char>) -> Option<
    Option<(Option<Seq<char>>, Option<Seq<char>>, Option<Seq<char>>)>,
>;

/// What `mime::Mime`'s `FromStr` makes of `s`, written out as the parsed
/// type holds it: none when it is no MIME type.
pub uninterp spec fn mime_source(s: Seq<char>) -> Option<Seq<char>>;

/// An optional string as characters.
pub open spec fn opt_chars(o: Option<String>) -> Option<Seq<char>> {
    match o {
        Some(s) => Some(s@),
        None => None,
    }
}

/// The entry of the text of a `.thumbnailer` file, by
/// `GenericEntry::from_str`, `GenericEntry::group` and `Group::entry`.
#[verifier::external_body]
fn parse_thumbnailer_entry(text: &str) -> (r: Option<Option<(Option<String>, Option<String>, Option<String>)>>)
    ensures
        thumbnailer_entry(text@) == match r {
            Some(Some((t, e, m))) => Some(Some((opt_chars(t), opt_chars(e), opt_chars(m)))),
            Some(None) => Some(None),
            None => None,
        },
{
    match freedesktop_desktop_entry::GenericEntry::from_str("", text) {
        Ok(entry) => Some(entry.group("Thumbnailer Entry").map(|g| {
            (g.entry("TryExec").map(str::to_string), g.entry("Exec").map(str::to_string), g.entry("MimeType").map(str::to_string))
        })),
        Err(_) => None,
    }
}

/// `s` parsed as a MIME type, by `mime::Mime`'s `FromStr`, and written out
/// by `Mime::as_ref`.
#[verifier::external_body]
fn parse_mime(s: &str) -> (r: Option<String>)
    ensures
        opt_chars(r) == mime_source(s@),
{
    s.parse::<mime_guess::Mime>().ok().map(|m| m.as_ref().to_owned())
}

/// A table of thumbnailers by MIME type: the types, each once, and for each
/// the `Exec` templates that handle it.
pub type TableView = (Seq<Seq<char>>, Seq<Seq<Seq<char>>>);

/// The first position from `i` on where `keys` holds `m`.
pub open spec fn find_from(keys: Seq<Seq<char>>, m: Seq<char>, i: int) -> Option<int>
    decreases keys.len() - i,
{
    if i < 0 || i >= keys.len() {
        None
    } else if keys[i] == m {
        Some(i)
    } else {
        find_from(keys, m, i + 1)
    }
}

proof fn lemma_find_from(keys: Seq<Seq<char>>, m: Seq<char>, i: int)
    requires
        0 <= i,
    ensures
        find_from(keys, m, i) matches Some(j) ==> i <= j < keys.len() && keys[j] == m,
        find_from(keys, m, i) is None ==> forall|j: int| i <= j < keys.len() ==> keys[j] != m,
    decreases keys.len() - i,
{
    if i < keys.len() {
        lemma_find_from(keys, m, i + 1);
    }
}

/// The table with `exec` added under the type `m`: after what the type has,
/// or as a new type at the end.
pub open spec fn add_one(t: TableView, m: Seq<char>, exec: Seq<char>) -> TableView {
    match find_from(t.0, m, 0) {
        Some(i) => (t.0, t.1.update(i, t.1[i].push(exec))),
        None => (t.0.push(m), t.1.push(seq![exec])),
    }
}

/// The table with `exec` added under each of the first `n` of `types`
/// that parses as a MIME type, in order.
pub open spec fn add_exec(t: TableView, types: Seq<Seq<char>>, exec: Seq<char>, n: int) -> TableView
    decreases n,
{
    if n <= 0 {
        t
    } else {
        let before = add_exec(t, types, exec, n - 1);
        match mime_source(types[n - 1]) {
            Some(m) => add_one(before, m, exec),
            None => before,
        }
    }
}

/// Whether the `k`th file is shadowed by an earlier file of the same name.
pub open spec fn shadowed(files: Seq<(String, String)>, k: int) -> bool {
    exists|j: int| 0 <= j < k && files[j].0@ == files[k].0@
}

/// What the `k`th file contributes, given `answer`, what the check of its
/// `TryExec` program said: its `Exec` template and `MimeType` list, when it
/// parses, has the group, its `TryExec` (if any) is there, and it has both.
pub open spec fn file_entry(files: Seq<(String, String)>, k: int, answer: bool) -> Option<(Seq<char>, Seq<char>)> {
    match thumbnailer_entry(files[k].1@) {
        Some(Some((try_exec, exec, types))) => if try_exec is None || answer {
            match (exec, types) {
                (Some(e), Some(ty)) => Some((e, ty)),
                _ => None,
            }
        } else {
            None
        },
        _ => None,
    }
}

/// The table the first `n` of `files` make, the checks of their `TryExec`
/// programs having said `answers`: a file shadowed by an earlier one of the
/// same name adds nothing; every other adds its `Exec` template under each
/// MIME type of its list, in file order.
pub open spec fn table_spec(files: Seq<(String, String)>, answers: Seq<bool>, n: int) -> TableView
    decreases n,
{
    if n <= 0 {
        (seq![], seq![])
    } else {
        let before = table_spec(files, answers, n - 1);
        if shadowed(files, n - 1) {
            before
        } else {
            match file_entry(files, n - 1, answers[n - 1]) {
                Some((e, ty)) => add_exec(before, list_entries(ty), e, list_entries(ty).len() as int),
                None => before,
            }
        }
    }
}

/// Whether `answer` is what `executable` may have said of the `TryExec`
/// program of the `k`th file, where it was asked: for a file that is not
/// shadowed, parses, has the group and a `TryExec`.
pub open spec fn answered<F: Fn(&str) -> bool>(files: Seq<(String, String)>, k: int, executable: F, answer: bool) -> bool {
    match thumbnailer_entry(files[k].1@) {
        Some(Some((Some(t), _, _))) => shadowed(files, k) || crate::location::exists_said(executable, t, answer),
        _ => true,
    }
}

/// The table as characters.
pub open spec fn table_view(r: Seq<(String, Vec<Thumbnailer>)>) -> TableView {
    (
        r.map_values(|e: (String, Vec<Thumbnailer>)| e.0@),
        r.map_values(|e: (String, Vec<Thumbnailer>)| e.1@.map_values(|t: Thumbnailer| t.exec_line@)),
    )
}

/// Whether `r` is the table `files` make when the checks of their `TryExec`
/// programs said `answers`.
pub open spec fn table_via<F: Fn(&str) -> bool>(
    files: Seq<(String, String)>,
    executable: F,
    answers: Seq<bool>,
    r: TableView,
) -> bool {
    &&& answers.len() == files.len()
    &&& forall|k: int| 0 <= k < files.len() ==> answered(files, k, executable, #[trigger] answers[k])
    &&& r == table_spec(files, answers, files.len() as int)
}

/// The templates of each list of thumbnailers, as characters.
pub open spec fn execs_view(v: Seq<Vec<Thumbnailer>>) -> Seq<Seq<Seq<char>>> {
    v.map_values(|t: Vec<Thumbnailer>| t@.map_values(|x: Thumbnailer| x.exec_line@))
}

fn find_key(keys: &Vec<String>, m: &str) -> (r: Option<usize>)
    ensures
        match r {
            Some(i) => find_from(string_views(keys@), m@, 0) == Some(i as int),
            None => find_from(string_views(keys@), m@, 0) is None,
        },
{
    let ghost kv = string_views(keys@);
    let mut j: usize = 0;
    while j < keys.len()
        invariant
            j <= keys@.len(),
            kv == string_views(keys@),
            find_from(kv, m@, 0) == find_from(kv, m@, j as int),
        decreases keys@.len() - j,
    {
        if str_eq(keys[j].as_str(), m) {
            return Some(j);
        }
        j = j + 1;
    }
    None
}

fn add_one_exec(keys: &mut Vec<String>, execs: &mut Vec<Vec<Thumbnailer>>, m: String, exec: &String)
    requires
        old(keys)@.len() == old(execs)@.len(),
    ensures
        final(keys)@.len() == final(execs)@.len(),
        (string_views(final(keys)@), execs_view(final(execs)@)) == add_one(
            (string_views(old(keys)@), execs_view(old(execs)@)),
            m@,
            exec@,
        ),
{
    proof {
        lemma_find_from(string_views(keys@), m@, 0);
    }
    match find_key(keys, m.as_str()) {
        Some(i) => {
            let ghost before = execs@;
            let mut v = execs.remove(i);
            let ghost vb = v@;
            v.push(Thumbnailer { exec_line: exec.clone() });
            execs.insert(i, v);
            assert(execs@ =~= before.update(i as int, v));
            assert(execs_view(execs@) =~= execs_view(before).update(
                i as int,
                execs_view(before)[i as int].push(exec@),
            )) by {
                assert(v@.map_values(|x: Thumbnailer| x.exec_line@) =~= vb.map_values(|x: Thumbnailer| x.exec_line@).push(
                    exec@,
                ));
            }
        },
        None => {
            let ghost kb = keys@;
            let ghost eb = execs@;
            let t = Thumbnailer { exec_line: exec.clone() };
            let nv = vec![t];
            assert(nv@.map_values(|x: Thumbnailer| x.exec_line@) =~= seq![exec@]);
            keys.push(m);
            execs.push(nv);
            assert(string_views(keys@) =~= string_views(kb).push(m@));
            assert(execs_view(execs@) =~= execs_view(eb).push(seq![exec@]));
        },
    }
}

fn is_shadowed(files: &[(String, String)], k: usize) -> (r: bool)
    requires
        k < files@.len(),
    ensures
        r == shadowed(files@, k as int),
{
    let mut j: usize = 0;
    while j < k
        invariant
            j <= k < files@.len(),
            forall|i: int| 0 <= i < j ==> files@[i].0@ != files@[k as int].0@,
        decreases k - j,
    {
        if str_eq(files[j].0.as_str(), files[k].0.as_str()) {
            return true;
        }
        j = j + 1;
    }
    false
}

/// The thumbnailers by MIME type that the `.thumbnailer` files `files`
/// describe, each given as its file name and text, in the order they are
/// searched: the user's data directory first. A file shadows every later
/// file of the same name. A file adds nothing when it does not parse, has
/// no `[Thumbnailer Entry]` group, names a `TryExec` program that
/// `executable` does not find, or lacks `Exec` or `MimeType`. Otherwise its
/// `Exec` template is added under each MIME type of its list that parses,
/// after the templates of earlier files; each type is listed once, in the
/// order first seen.
pub fn thumbnailer_table(files: &[(String, String)], executable: impl Fn(&str) -> bool) -> (r: Vec<(String, Vec<Thumbnailer>)>)
    requires
        forall|s: &str| call_requires(executable, (s,)),
    ensures
        exists|answers: Seq<bool>| #[trigger] table_via(files@, executable, answers, table_view(r@)),
{
    let mut keys: Vec<String> = Vec::new();
    let mut execs: Vec<Vec<Thumbnailer>> = Vec::new();
    let ghost mut answers: Seq<bool> = seq![];
    let mut k: usize = 0;
    while k < files.len()
        invariant
            k <= files@.len(),
            answers.len() == k,
            keys@.len() == execs@.len(),
            forall|i: int| 0 <= i < k ==> answered(files@, i, executable, #[trigger] answers[i]),
            (string_views(keys@), execs_view(execs@)) == table_spec(files@, answers, k as int),
            forall|s: &str| call_requires(executable, (s,)),
        decreases files@.len() - k,
    {
        let ghost before = (string_views(keys@), execs_view(execs@));
        if is_shadowed(files, k) {
            proof {
                let old_answers = answers;
                answers = answers.push(false);
                lemma_table_prefix(files@, old_answers, answers, k as int);
                assert(table_spec(files@, answers, k + 1) == table_spec(files@, answers, k as int));
            }
        } else {
            let parsed = parse_thumbnailer_entry(files[k].1.as_str());
            let mut answer = false;
            let mut found: Option<(String, String)> = None;
            match parsed {
                Some(Some((try_exec, exec, types))) => {
                    let ok = match &try_exec {
                        Some(t) => {
                            let a = executable(t.as_str());
                            assert(crate::location::exists_said(executable, t@, a));
                            a
                        },
                        None => true,
                    };
                    answer = ok;
                    if ok {
                        match (exec, types) {
                            (Some(e), Some(ty)) => {
                                found = Some((e, ty));
                            },
                            _ => {},
                        }
                    }
                },
                _ => {},
            }
            proof {
                let old_answers = answers;
                answers = answers.push(answer);
                lemma_table_prefix(files@, old_answers, answers, k as int);
                assert(answered(files@, k as int, executable, answers[k as int]));
                assert(file_entry(files@, k as int, answer) == match found {
                    Some((e, ty)) => Some((e@, ty@)),
                    None => None::<(Seq<char>, Seq<char>)>,
                });
            }
            if let Some((e, ty)) = found {
                let list = mime_types(ty.as_str());
                let ghost lv = string_views(list@);
                let mut j: usize = 0;
                while j < list.len()
                    invariant
                        j <= list@.len(),
                        lv == string_views(list@),
                        lv == list_entries(ty@),
                        keys@.len() == execs@.len(),
                        (string_views(keys@), execs_view(execs@)) == add_exec(before, lv, e@, j as int),
                    decreases list@.len() - j,
                {
                    match parse_mime(list[j].as_str()) {
                        Some(m) => {
                            add_one_exec(&mut keys, &mut execs, m, &e);
                        },
                        None => {},
                    }
                    j = j + 1;
                }
                assert(table_spec(files@, answers, k + 1) == add_exec(before, lv, e@, lv.len() as int));
            } else {
                assert(table_spec(files@, answers, k + 1) == before);
            }
        }
        k = k + 1;
    }
    let ghost kv = string_views(keys@);
    let ghost ev = execs_view(execs@);
    let mut out: Vec<(String, Vec<Thumbnailer>)> = Vec::new();
    let n = keys.len();
    let mut i: usize = 0;
    while i < n
        invariant
            i <= n == kv.len() == ev.len(),
            keys@.len() == n - i,
            execs@.len() == n - i,
            string_views(keys@) == kv.skip(i as int),
            execs_view(execs@) == ev.skip(i as int),
            table_view(out@) == (kv.take(i as int), ev.take(i as int)),
        decreases n - i,
    {
        let ghost kb = keys@;
        let ghost eb = execs@;
        let key = keys.remove(0);
        let list = execs.remove(0);
        assert(key@ == kv[i as int]) by {
            assert(string_views(kb)[0] == kv.skip(i as int)[0]);
        }
        assert(list@.map_values(|x: Thumbnailer| x.exec_line@) == ev[i as int]) by {
            assert(execs_view(eb)[0] == ev.skip(i as int)[0]);
        }
        let ghost ob = out@;
        assert(table_view(ob).0.len() == ob.len());
        assert(ob.len() == i);
        out.push((key, list));
        assert(out@ == ob.push((key, list)));
        assert forall|q: int| 0 <= q < keys@.len() implies string_views(keys@)[q] == kv.skip(i + 1)[q] by {
            assert(keys@[q] == kb[q + 1]);
            assert(string_views(kb)[q + 1] == kv.skip(i as int)[q + 1]);
        }
        assert(string_views(keys@) =~= kv.skip(i + 1));
        assert forall|q: int| 0 <= q < execs@.len() implies execs_view(execs@)[q] == ev.skip(i + 1)[q] by {
            assert(execs@[q] == eb[q + 1]);
            assert(execs_view(eb)[q + 1] == ev.skip(i as int)[q + 1]);
        }
        assert(execs_view(execs@) =~= ev.skip(i + 1));
        assert forall|q: int| 0 <= q < out@.len() implies table_view(out@).0[q] == kv.take(i + 1)[q] && table_view(out@).1[q] == ev.take(i + 1)[q] by {
            if q < i {
                assert(out@[q] == ob[q]);
                assert(table_view(ob).0[q] == kv.take(i as int)[q]);
                assert(table_view(ob).1[q] == ev.take(i as int)[q]);
            }
        }
        assert(table_view(out@).0 =~= kv.take(i + 1));
        assert(table_view(out@).1 =~= ev.take(i + 1));
        i = i + 1;
    }
    assert(kv.take(n as int) =~= kv);
    assert(ev.take(n as int) =~= ev);
    assert(table_via(files@, executable, answers, table_view(out@)));
    out
}

proof fn lemma_table_prefix(files: Seq<(String, String)>, a: Seq<bool>, b: Seq<bool>, n: int)
    requires
        0 <= n <= a.len(),
        n <= b.len(),
        forall|i: int| 0 <= i < n ==> a[i] == b[i],
    ensures
        table_spec(files, a, n) == table_spec(files, b, n),
    decreases n,
{
    if n > 0 {
        lemma_table_prefix(files, a, b, n - 1);
    }
}

} // verus!
