//! Finding repositories: what is read off a directory, off a remote and off a list of worktrees.
use crate::command::OutcomeModel;
use crate::error::ErrorModel;
use crate::gc;
use crate::gc::{EntryModel, ListedModel, RepoModel};
use crate::laws::texts;
use crate::names;
use crate::paths;
use crate::text;
use vstd::prelude::*;

verus! {

/// The name of an owner: something without a slash.
pub open spec fn is_owner(owner: Seq<char>) -> bool {
    owner.len() > 0 && forall|i: int| 0 <= i < owner.len() ==> owner[i] != '/'
}

/// The name of a repository: something that does not end in `.git`.
pub open spec fn is_repo(repo: Seq<char>) -> bool {
    repo.len() > 0 && !exists|a: Seq<char>| repo == #[trigger] (a + ".git"@)
}

/// A successful answer of git.
pub open spec fn told(stdout: Seq<char>, stderr: Seq<char>) -> OutcomeModel {
    OutcomeModel::Exited { success: true, stdout, stderr }
}

/// The beginning of the URL of a remote on GitHub.
pub open spec fn is_host(host: Seq<char>) -> bool {
    host == "https://github.com/"@ || host == "git@github.com:"@
}

/// Git tells the URL of a remote on GitHub, in the HTTPS or the SSH form, with `.git` behind it or
/// not, and white space around it: owner and repository are read as they are.
pub proof fn lemma_answer_names_owner_and_repository(
    path: Seq<char>,
    host: Seq<char>,
    owner: Seq<char>,
    repo: Seq<char>,
    times: nat,
    before: Seq<char>,
    behind: Seq<char>,
    stderr: Seq<char>,
)
    requires
        is_host(host),
        is_owner(owner),
        is_repo(repo),
        !texts::white(repo.last()),
        texts::all_white(before),
        texts::all_white(behind),
    ensures
        gc::remote_answer(
            path,
            told(before + (host + owner + seq!['/'] + repo + texts::repeated(".git"@, times)) + behind, stderr),
        ) == Ok::<_, ErrorModel>((owner, repo)),
{
    reveal_strlit("https://github.com/");
    reveal_strlit("git@github.com:");
    reveal_strlit(".git");
    let ends = texts::repeated(".git"@, times);
    let core = owner + seq!['/'] + repo;
    let url = host + owner + seq!['/'] + repo + ends;
    lemma_ends_with_t(times);
    assert(url[0] == host[0]);
    if times > 0 {
        assert(url.last() == ends.last());
    } else {
        assert(ends =~= Seq::empty());
        assert(url.last() == repo.last());
    }
    texts::lemma_trimming_takes_white_space(before, url, behind);
    let n = host.len() as int;
    assert(url.subrange(0, n) =~= host);
    assert(text::after(url, n) =~= core + ends);
    if host == "git@github.com:"@ && text::has_prefix(url, "https://github.com/"@) {
        assert(url.subrange(0, 19)[0] == url[0]);
    }
    assert(!exists|a: Seq<char>| core == #[trigger] (a + ".git"@)) by {
        if exists|a: Seq<char>| core == #[trigger] (a + ".git"@) {
            let a = choose|a: Seq<char>| core == #[trigger] (a + ".git"@);
            let k = owner.len() + 1;
            if a.len() >= k {
                let b = a.subrange(k as int, a.len() as int);
                assert(repo =~= core.subrange(k as int, core.len() as int));
                assert(repo =~= b + ".git"@);
            } else {
                assert(core[owner.len() as int] == '/');
                assert(core[owner.len() as int] == ".git"@[owner.len() - a.len()]);
            }
        }
    }
    texts::lemma_endings_go(core, ".git"@, times);
    assert forall|i: int| 0 <= i < owner.len() implies core[i] != '/' by {
        assert(core[i] == owner[i]);
    }
    text::lemma_first_at(core, '/', owner.len() as int);
    assert(core.subrange(0, owner.len() as int) =~= owner);
    assert(text::after(core, owner.len() as int + 1) =~= repo);
}

proof fn lemma_ends_with_t(times: nat)
    ensures
        times > 0 ==> texts::repeated(".git"@, times).len() > 0 && texts::repeated(".git"@, times).last() == 't',
{
    reveal_strlit(".git");
}

/// The answer is white space, the beginning of a URL on GitHub, owner, slash and repository, and
/// something behind them.
pub open spec fn names_them(
    stdout: Seq<char>,
    before: Seq<char>,
    host: Seq<char>,
    owner: Seq<char>,
    repo: Seq<char>,
    behind: Seq<char>,
) -> bool {
    &&& texts::all_white(before)
    &&& is_host(host)
    &&& stdout == before + (host + (owner + seq!['/'] + repo) + behind)
}

/// An owner and a repository that were read stood in the answer as they are, behind the beginning
/// of a URL on GitHub; and git had succeeded.
pub proof fn lemma_owner_and_repository_were_told(path: Seq<char>, outcome: OutcomeModel, owner: Seq<char>, repo: Seq<char>)
    requires
        gc::remote_answer(path, outcome) == Ok::<_, ErrorModel>((owner, repo)),
    ensures
        is_owner(owner),
        repo.len() > 0,
        outcome matches OutcomeModel::Exited { success, stdout, .. } && success && exists|
            before: Seq<char>,
            host: Seq<char>,
            behind: Seq<char>,
        | names_them(stdout, before, host, owner, repo, behind),
{
    let stdout = outcome->Exited_stdout;
    let url = text::trim(stdout);
    let (host, rest) = lemma_url_names_them(url, owner, repo);
    texts::lemma_trimmed_text_has_no_white_ends(stdout);
    let (before, last) = choose|before: Seq<char>, last: Seq<char>|
        stdout == #[trigger] (before + url + last) && texts::all_white(before) && texts::all_white(last);
    lemma_regrouped(before, host, owner + seq!['/'] + repo, rest, last);
    assert(names_them(stdout, before, host, owner, repo, rest + last));
}

proof fn lemma_regrouped(before: Seq<char>, host: Seq<char>, core: Seq<char>, rest: Seq<char>, last: Seq<char>)
    ensures
        before + (host + (core + rest)) + last == before + (host + core + (rest + last)),
{
    assert(before + (host + (core + rest)) + last =~= before + (host + core + (rest + last)));
}

proof fn lemma_url_names_them(url: Seq<char>, owner: Seq<char>, repo: Seq<char>) -> (r: (Seq<char>, Seq<char>))
    requires
        gc::remote_owner_repo(url) == Ok::<_, ErrorModel>((owner, repo)),
    ensures
        is_owner(owner),
        repo.len() > 0,
        is_host(r.0),
        url == r.0 + ((owner + seq!['/'] + repo) + r.1),
{
    let https = "https://github.com/"@;
    let ssh = "git@github.com:"@;
    let host = if text::has_prefix(url, https) {
        https
    } else {
        ssh
    };
    let part = text::after(url, host.len() as int);
    let rest = lemma_part_names_them(part, owner, repo);
    assert(url =~= url.subrange(0, host.len() as int) + part);
    (host, rest)
}

proof fn lemma_part_names_them(part: Seq<char>, owner: Seq<char>, repo: Seq<char>) -> (rest: Seq<char>)
    requires
        gc::owner_repo(part) == Some((owner, repo)),
    ensures
        is_owner(owner),
        repo.len() > 0,
        part == (owner + seq!['/'] + repo) + rest,
{
    let core = text::without_suffixes(part, ".git"@);
    lemma_without_suffixes_is_a_beginning(part, ".git"@);
    texts::lemma_first_is_first(core, '/');
    let rest = part.subrange(core.len() as int, part.len() as int);
    assert(core =~= owner + seq!['/'] + repo);
    assert(part =~= core + rest);
    assert forall|i: int| 0 <= i < owner.len() implies owner[i] != '/' by {
        assert(owner[i] == core[i]);
    }
    rest
}

proof fn lemma_without_suffixes_is_a_beginning(s: Seq<char>, suffix: Seq<char>)
    ensures
        text::without_suffixes(s, suffix).len() <= s.len(),
        text::without_suffixes(s, suffix) == s.subrange(0, text::without_suffixes(s, suffix).len() as int),
    decreases s.len(),
{
    if suffix.len() > 0 && text::has_suffix(s, suffix) {
        let shorter = s.subrange(0, s.len() - suffix.len());
        lemma_without_suffixes_is_a_beginning(shorter, suffix);
        let n = text::without_suffixes(s, suffix).len() as int;
        assert(shorter.subrange(0, n) =~= s.subrange(0, n));
    } else {
        assert(s.subrange(0, s.len() as int) =~= s);
    }
}

/// Where git does not succeed, and where the remote is not on GitHub, nothing is read.
pub proof fn lemma_other_answers_name_nothing(path: Seq<char>, outcome: OutcomeModel)
    requires
        match outcome {
            OutcomeModel::NotStarted { .. } => true,
            OutcomeModel::Exited { success, stdout, .. } => success ==> forall|host: Seq<char>, rest: Seq<char>|
                is_host(host) ==> text::trim(stdout) != #[trigger] (host + rest),
        },
    ensures
        gc::remote_answer(path, outcome) is Err,
{
    if let OutcomeModel::Exited { stdout, .. } = outcome {
        let url = text::trim(stdout);
        texts::lemma_beginnings_and_ends(url, "https://github.com/"@);
        texts::lemma_beginnings_and_ends(url, "git@github.com:"@);
    }
}

/// The directories with a directory `.git` in them are the repositories, each as it is named and no
/// other one.
pub proof fn lemma_repositories_are_directories_with_git(a: Seq<EntryModel>, b: Seq<EntryModel>, entry: EntryModel)
    ensures
        gc::repo_paths(Seq::empty()) == Seq::<Seq<char>>::empty(),
        gc::repo_paths(seq![entry]) == if entry.is_dir && entry.has_git_dir { seq![entry.path] } else { Seq::empty() },
        gc::repo_paths(a + b) == gc::repo_paths(a) + gc::repo_paths(b),
    decreases b.len(),
{
    assert(seq![entry].drop_last() =~= Seq::empty());
    reveal_with_fuel(gc::repo_paths, 2);
    assert(Seq::<Seq<char>>::empty().push(entry.path) =~= seq![entry.path]);
    if b.len() == 0 {
        assert(a + b =~= a);
        assert(gc::repo_paths(a) + gc::repo_paths(b) =~= gc::repo_paths(a));
    } else {
        assert((a + b).drop_last() =~= a + b.drop_last());
        lemma_repositories_are_directories_with_git(a, b.drop_last(), entry);
        assert(gc::repo_paths(a + b) =~= gc::repo_paths(a) + gc::repo_paths(b));
    }
}

/// The repositories come in the order of their paths: no path stands behind a greater one.
pub proof fn lemma_repositories_come_in_order(found: Seq<Seq<char>>, r: Seq<Seq<char>>, i: int, j: int)
    requires
        names::sorted_from::<String>(found, r),
        0 <= i < j < r.len(),
    ensures
        !text::precedes(r[j], r[i]),
        found.contains(r[i]),
        r.len() == found.len(),
{
    assert(r.contains(r[i]));
    names::lemma_sorted_from_contains::<String>(found, r, r[i]);
    names::lemma_sorting_keeps_length::<String>(found, r);
}

/// The repositories on GitHub are kept with what their remotes say, and each other one has its
/// line; all of them in their order.
pub proof fn lemma_each_remote_decides_on_its_repository(
    a: Seq<(Seq<char>, OutcomeModel)>,
    b: Seq<(Seq<char>, OutcomeModel)>,
    path: Seq<char>,
    outcome: OutcomeModel,
)
    ensures
        gc::github_part(a + b).0 == gc::github_part(a).0 + gc::github_part(b).0,
        gc::github_part(a + b).1 == gc::github_part(a).1 + gc::github_part(b).1,
        gc::remote_answer(path, outcome) matches Ok((owner, repo)) ==> gc::github_part(seq![(path, outcome)]) == (
            seq![RepoModel { path, owner, repo }],
            Seq::<Seq<char>>::empty(),
        ),
        gc::remote_answer(path, outcome) matches Err(e) ==> gc::github_part(seq![(path, outcome)]) == (
            Seq::<RepoModel>::empty(),
            seq!["Skipping "@ + path + " (not a GitHub repo: "@ + e.text + ")"@],
        ),
    decreases b.len(),
{
    let one = seq![(path, outcome)];
    assert(one.drop_last() =~= Seq::empty());
    reveal_with_fuel(gc::github_part, 2);
    match gc::remote_answer(path, outcome) {
        Ok((owner, repo)) => {
            assert(gc::github_part(one).0 =~= seq![RepoModel { path, owner, repo }]);
        },
        Err(e) => {
            assert(gc::github_part(one).1 =~= seq![
                "Skipping "@ + path + " (not a GitHub repo: "@ + e.text + ")"@,
            ]);
        },
    }
    if b.len() == 0 {
        assert(a + b =~= a);
        assert(gc::github_part(a).0 + gc::github_part(b).0 =~= gc::github_part(a).0);
        assert(gc::github_part(a).1 + gc::github_part(b).1 =~= gc::github_part(a).1);
    } else {
        assert((a + b).drop_last() =~= a + b.drop_last());
        assert((a + b).last() == b.last());
        lemma_each_remote_decides_on_its_repository(a, b.drop_last(), path, outcome);
        assert(gc::github_part(a + b).0 =~= gc::github_part(a).0 + gc::github_part(b).0);
        assert(gc::github_part(a + b).1 =~= gc::github_part(a).1 + gc::github_part(b).1);
    }
}

/// The list that git writes is read as it is: one worktree for each block, with its path and its
/// branch. The first one is the main one, and of the others one that lies where the repository does.
pub proof fn lemma_listed_worktrees_are_read(path: Seq<char>, ws: Seq<ListedModel>, stderr: Seq<char>)
    requires
        forall|i: int| 0 <= i < ws.len() ==> (#[trigger] ws[i]).is_writable(),
    ensures
        gc::listing_answer(path, told(text::unlines(gc::blocks(ws)), stderr)) matches Ok(all) && {
            &&& all.len() == ws.len()
            &&& forall|i: int|
                0 <= i < all.len() ==> {
                    &&& (#[trigger] all[i]).path == ws[i].path
                    &&& all[i].branch == ws[i].branch
                    &&& all[i].is_main <==> i == 0 || paths::same_place(ws[i].path, path)
                }
        },
{
    gc::lemma_listing_is_read(ws, path);
}

/// What git writes about a worktree: its path, its commit and its branch where it has them, what
/// else there is to say, and an empty line.
pub proof fn lemma_block_of_a_worktree(w: ListedModel)
    ensures
        w.block().len() > 1,
        w.block()[0] == "worktree "@ + w.path,
        w.block().last() == ""@,
        w.branch matches Some(branch) ==> w.block().contains("branch refs/heads/"@ + branch),
        w.head matches Some(head) ==> w.block().contains("HEAD "@ + head),
        forall|i: int| 0 <= i < w.notes.len() ==> w.block().contains(#[trigger] w.notes[i]),
{
    let top = seq!["worktree "@ + w.path];
    let head = gc::field_line("HEAD "@, w.head);
    let branch = gc::field_line("branch refs/heads/"@, w.branch);
    assert(w.block()[0] == top[0]);
    if w.head is Some {
        assert(w.block()[1] == head[0]);
    }
    if w.branch is Some {
        assert(w.block()[1 + head.len() as int] == branch[0]);
    }
    assert forall|i: int| 0 <= i < w.notes.len() implies w.block().contains(#[trigger] w.notes[i]) by {
        assert(w.block()[1 + head.len() + branch.len() + i] == w.notes[i]);
    }
}

/// A path without empty and one-dot parts: each slash has something else than a dot alone behind it.
pub open spec fn is_tidy(path: Seq<char>) -> bool {
    &&& path.len() > 1
    &&& path[0] == '/'
    &&& path.last() != '/'
    &&& forall|i: int|
        0 <= i < path.len() - 1 && #[trigger] path[i] == '/' ==> path[i + 1] != '/' && !(path[i + 1] == '.' && (i + 2
            == path.len() || path[i + 2] == '/'))
}

/// Tidy paths name one place only where they are the same text.
pub proof fn lemma_tidy_paths_are_their_places(a: Seq<char>, b: Seq<char>)
    requires
        is_tidy(a),
        is_tidy(b),
    ensures
        paths::same_place(a, b) <==> a == b,
{
    lemma_tidy_components(a);
    lemma_tidy_components(b);
    if paths::same_place(a, b) {
        lemma_pieces_tell_the_path(text::after(a, 1), text::after(b, 1));
        assert(a =~= seq!['/'] + text::after(a, 1));
        assert(b =~= seq!['/'] + text::after(b, 1));
    }
}

proof fn lemma_pieces_tell_the_path(a: Seq<char>, b: Seq<char>)
    requires
        paths::pieces(a) == paths::pieces(b),
    ensures
        a == b,
    decreases a.len(),
{
    let i = text::first_at(a, '/') as int;
    let j = text::first_at(b, '/') as int;
    texts::lemma_first_is_first(a, '/');
    texts::lemma_first_is_first(b, '/');
    let x = paths::pieces(a);
    let y = paths::pieces(b);
    lemma_pieces_are_some(a);
    lemma_pieces_are_some(b);
    if i < a.len() {
        lemma_pieces_are_some(text::after(a, i + 1));
        assert(x.drop_first() =~= paths::pieces(text::after(a, i + 1)));
    }
    if j < b.len() {
        lemma_pieces_are_some(text::after(b, j + 1));
        assert(y.drop_first() =~= paths::pieces(text::after(b, j + 1)));
    }
    assert(x[0] == y[0]);
    if i < a.len() && j < b.len() {
        lemma_pieces_tell_the_path(text::after(a, i + 1), text::after(b, j + 1));
        assert(a =~= x[0] + seq!['/'] + text::after(a, i + 1));
        assert(b =~= y[0] + seq!['/'] + text::after(b, j + 1));
    } else if i < a.len() {
        assert(x.len() > 1 && y.len() == 1);
    } else if j < b.len() {
        assert(y.len() > 1 && x.len() == 1);
    } else {
        assert(a == x[0] && b == y[0]);
    }
}

proof fn lemma_pieces_are_some(s: Seq<char>)
    ensures
        paths::pieces(s).len() > 0,
        text::first_at(s, '/') < s.len() ==> paths::pieces(s)[0] == s.subrange(0, text::first_at(s, '/') as int),
        text::first_at(s, '/') >= s.len() ==> paths::pieces(s) == seq![s],
{
}

proof fn lemma_tidy_components(path: Seq<char>)
    requires
        is_tidy(path),
    ensures
        paths::components(path) == paths::pieces(text::after(path, 1)),
        paths::is_absolute(path),
{
    let all = paths::pieces(path);
    let rest = text::after(path, 1);
    texts::lemma_first_is_first(path, '/');
    assert(text::first_at(path, '/') == 0);
    assert(all =~= seq![path.subrange(0, 0)] + paths::pieces(rest));
    assert(all[0].len() == 0);
    assert(all.drop_first() =~= paths::pieces(rest));
    assert forall|i: int| 0 <= i < rest.len() implies #[trigger] tidy_at(rest, i) by {
        assert(rest[i] == path[i + 1]);
        if i > 0 {
            assert(rest[i - 1] == path[i]);
        }
        if i + 1 < rest.len() {
            assert(rest[i + 1] == path[i + 2]);
        }
    }
    assert(rest.last() == path.last());
    lemma_tidy_pieces_count(rest);
}

/// A piece that begins at the place is neither empty nor a dot.
spec fn tidy_at(s: Seq<char>, i: int) -> bool {
    i == 0 || s[i - 1] == '/' ==> s[i] != '/' && !(s[i] == '.' && (i + 1 == s.len() || s[i + 1] == '/'))
}

/// No piece of the text is empty or a dot.
spec fn tidy_rest(s: Seq<char>) -> bool {
    &&& s.len() > 0
    &&& s.last() != '/'
    &&& forall|i: int| 0 <= i < s.len() ==> #[trigger] tidy_at(s, i)
}

proof fn lemma_rest_is_tidy(s: Seq<char>, end: int)
    requires
        tidy_rest(s),
        0 <= end < s.len() - 1,
        s[end] == '/',
    ensures
        tidy_rest(text::after(s, end + 1)),
{
    let rest = text::after(s, end + 1);
    assert(rest.last() == s.last());
    assert forall|i: int| 0 <= i < rest.len() implies #[trigger] tidy_at(rest, i) by {
        let k = end + 1 + i;
        assert(tidy_at(s, k));
        assert(rest[i] == s[k]);
        if i > 0 {
            assert(rest[i - 1] == s[k - 1]);
        }
        if i + 1 < rest.len() {
            assert(rest[i + 1] == s[k + 1]);
        }
    }
}

proof fn lemma_tidy_pieces_count(s: Seq<char>)
    requires
        tidy_rest(s),
    ensures
        paths::counted(paths::pieces(s), false) == paths::pieces(s),
    decreases s.len(),
{
    let end = text::first_at(s, '/') as int;
    texts::lemma_first_is_first(s, '/');
    reveal_strlit(".");
    assert(tidy_at(s, 0));
    let none = Seq::<Seq<char>>::empty();
    if end >= s.len() {
        lemma_piece_counts(s, none);
        assert(seq![s] + none =~= seq![s]);
        assert(paths::counted(none, false) =~= none);
    } else {
        let rest = text::after(s, end + 1);
        let first = s.subrange(0, end);
        assert(end > 0);
        assert(first[0] == s[0]);
        lemma_rest_is_tidy(s, end);
        lemma_tidy_pieces_count(rest);
        lemma_piece_counts(first, paths::pieces(rest));
    }
}

proof fn lemma_piece_counts(piece: Seq<char>, rest: Seq<Seq<char>>)
    requires
        piece.len() > 0,
        piece != "."@,
    ensures
        paths::counted(seq![piece] + rest, false) == seq![piece] + paths::counted(rest, false),
{
    assert((seq![piece] + rest).drop_first() =~= rest);
    assert((seq![piece] + rest)[0] == piece);
}

/// Slashes that stand together, a slash at the end and parts of one dot do not count: the path is the
/// same place without them.
pub proof fn lemma_slashes_and_dots_do_not_count(a: Seq<char>, b: Seq<char>)
    ensures
        paths::same_place(a + seq!['/', '/'] + b, a + seq!['/'] + b),
        paths::same_place(a + seq!['/', '.', '/'] + b, a + seq!['/'] + b),
        a.len() > 0 ==> paths::same_place(a + seq!['/'], a),
        a.len() > 0 ==> paths::same_place(a + seq!['/', '.'], a),
{
    let empty = Seq::<char>::empty();
    let dot = seq!['.'];
    reveal_strlit(".");
    assert("."@ =~= dot);
    lemma_pieces_of_both(a, b);
    lemma_pieces_of_both(a, seq!['/'] + b);
    lemma_pieces_of_both(empty, b);
    lemma_pieces_of_both(a, dot + seq!['/'] + b);
    lemma_pieces_of_both(dot, b);
    lemma_pieces_of_both(a, empty);
    lemma_pieces_of_both(a, dot);
    lemma_one_piece(empty);
    lemma_one_piece(dot);
    assert(a + seq!['/', '/'] + b =~= a + seq!['/'] + (seq!['/'] + b));
    assert(seq!['/'] + b =~= empty + seq!['/'] + b);
    assert(a + seq!['/', '.', '/'] + b =~= a + seq!['/'] + (dot + seq!['/'] + b));
    assert(a + seq!['/'] =~= a + seq!['/'] + empty);
    assert(a + seq!['/', '.'] =~= a + seq!['/'] + dot);
    let p = paths::pieces(a);
    let q = paths::pieces(b);
    lemma_some_pieces(a);
    lemma_counted_of_both(p, q, true);
    lemma_counted_of_both(p, seq![empty] + q, true);
    lemma_counted_of_both(p, seq![dot] + q, true);
    lemma_counted_of_both(p, seq![empty], true);
    lemma_counted_of_both(p, seq![dot], true);
    lemma_no_piece_counts(empty, q);
    lemma_no_piece_counts(dot, q);
    let none = Seq::<Seq<char>>::empty();
    lemma_no_piece_counts(empty, none);
    lemma_no_piece_counts(dot, none);
    assert(seq![empty] + none =~= seq![empty]);
    assert(seq![dot] + none =~= seq![dot]);
    assert(paths::counted(none, false) =~= none);
    assert(paths::counted(p, true) + none =~= paths::counted(p, true));
    assert(paths::components(a + seq!['/', '/'] + b) == paths::components(a + seq!['/'] + b));
    assert(paths::components(a + seq!['/', '.', '/'] + b) == paths::components(a + seq!['/'] + b));
}

proof fn lemma_one_piece(s: Seq<char>)
    requires
        forall|i: int| 0 <= i < s.len() ==> s[i] != '/',
    ensures
        paths::pieces(s) == seq![s],
{
    texts::lemma_first_is_first(s, '/');
}

proof fn lemma_some_pieces(s: Seq<char>)
    ensures
        paths::pieces(s).len() > 0,
{
}

proof fn lemma_no_piece_counts(piece: Seq<char>, rest: Seq<Seq<char>>)
    requires
        piece.len() == 0 || piece == "."@,
    ensures
        paths::counted(seq![piece] + rest, false) == paths::counted(rest, false),
{
    assert((seq![piece] + rest).drop_first() =~= rest);
    assert((seq![piece] + rest)[0] == piece);
}

proof fn lemma_pieces_of_both(a: Seq<char>, b: Seq<char>)
    ensures
        paths::pieces(a + seq!['/'] + b) == paths::pieces(a) + paths::pieces(b),
    decreases a.len(),
{
    let s = a + seq!['/'] + b;
    let end = text::first_at(a, '/') as int;
    texts::lemma_first_is_first(a, '/');
    if end >= a.len() {
        assert forall|i: int| 0 <= i < a.len() implies s[i] != '/' by {
            assert(s[i] == a[i]);
        }
        assert(s[a.len() as int] == '/');
        text::lemma_first_at(s, '/', a.len() as int);
        assert(s.subrange(0, a.len() as int) =~= a);
        assert(text::after(s, a.len() as int + 1) =~= b);
    } else {
        assert forall|i: int| 0 <= i < end implies s[i] != '/' by {
            assert(s[i] == a[i]);
        }
        assert(s[end] == '/');
        text::lemma_first_at(s, '/', end);
        let rest = text::after(a, end + 1);
        assert(s.subrange(0, end) =~= a.subrange(0, end));
        assert(text::after(s, end + 1) =~= rest + seq!['/'] + b);
        lemma_pieces_of_both(rest, b);
        assert(paths::pieces(s) =~= paths::pieces(a) + paths::pieces(b));
    }
}

proof fn lemma_counted_of_both(p: Seq<Seq<char>>, q: Seq<Seq<char>>, leading: bool)
    requires
        p.len() > 0,
    ensures
        paths::counted(p + q, leading) == paths::counted(p, leading) + paths::counted(q, false),
    decreases p.len(),
{
    let rest = p.drop_first();
    assert((p + q).drop_first() =~= rest + q);
    assert((p + q)[0] == p[0]);
    if rest.len() > 0 {
        lemma_counted_of_both(rest, q, false);
    } else {
        assert(rest + q =~= q);
        assert(paths::counted(rest, false) =~= Seq::<Seq<char>>::empty());
        assert(paths::counted(rest, false) + paths::counted(q, false) =~= paths::counted(q, false));
    }
    assert(paths::counted(p + q, leading) =~= paths::counted(p, leading) + paths::counted(q, false));
}

} // verus!
