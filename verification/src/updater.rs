//! The manifest-apply workflow: branch and commit text, repository
//! coordinates parsed from the remote URL, the provider-specific
//! pull-request call, and the phase machine that orders clone, branch,
//! patch, commit, push and pull request. The file system and network
//! work itself happens outside; every decision and every byte handed to
//! the outside lives here.

use vstd::prelude::*;
use crate::config::{api_base_of, GitProvider, UpdaterConfig};
use crate::error::RecommenderError;
use crate::strutil::{
    contains_seq, push_char, starts_with_seq, str_contains, str_starts_with,
};

verus! {

/// The first index of `c`, or the length when absent.
pub open spec fn first_index_of(s: Seq<char>, c: char) -> int
    decreases s.len(),
{
    if s.len() == 0 {
        0
    } else if s[0] == c {
        0
    } else {
        1 + first_index_of(s.drop_first(), c)
    }
}

proof fn lemma_first_index_of(s: Seq<char>, c: char, i: int)
    requires
        0 <= i <= s.len(),
        forall|j: int| 0 <= j < i ==> s[j] != c,
        i < s.len() ==> s[i] == c,
    ensures
        first_index_of(s, c) == i,
    decreases s.len(),
{
    if s.len() > 0 && s[0] != c {
        assert(i >= 1);
        assert(forall|j: int| 0 <= j < i - 1 ==> s.drop_first()[j] == s[j + 1]);
        lemma_first_index_of(s.drop_first(), c, i - 1);
    }
}

/// Finds the first occurrence of `c`, returning the length when absent.
fn find_char(s: &str, c: char) -> (r: usize)
    ensures
        r as int == first_index_of(s@, c),
        r <= s@.len(),
        r < s@.len() ==> s@[r as int] == c,
{
    let n = s.unicode_len();
    let mut i: usize = 0;
    while i < n
        invariant
            i <= n,
            n == s@.len(),
            forall|j: int| 0 <= j < i ==> s@[j] != c,
        decreases n - i,
    {
        if s.get_char(i) == c {
            proof {
                lemma_first_index_of(s@, c, i as int);
            }
            return i;
        }
        i += 1;
    }
    proof {
        lemma_first_index_of(s@, c, n as int);
    }
    n
}

/// The string with every trailing `".git"` removed.
pub open spec fn trim_git_suffix(s: Seq<char>) -> Seq<char>
    decreases s.len(),
{
    if s.len() >= 4 && s.subrange(s.len() - 4, s.len() as int) == ".git"@ {
        trim_git_suffix(s.subrange(0, s.len() - 4))
    } else {
        s
    }
}

fn trim_git_suffix_exec(s: &str) -> (r: String)
    ensures
        r@ == trim_git_suffix(s@),
{
    let n = s.unicode_len();
    let mut end: usize = n;
    proof {
        assert(s@.subrange(0, n as int) =~= s@);
    }
    while end >= 4 && s.get_char(end - 4) == '.' && s.get_char(end - 3) == 'g' && s.get_char(
        end - 2,
    ) == 'i' && s.get_char(end - 1) == 't'
        invariant
            end <= n,
            n == s@.len(),
            trim_git_suffix(s@) == trim_git_suffix(s@.subrange(0, end as int)),
        decreases end,
    {
        proof {
            reveal_strlit(".git");
            let cur = s@.subrange(0, end as int);
            assert(cur.len() >= 4);
            assert(cur.subrange(cur.len() - 4, cur.len() as int) =~= ".git"@);
            assert(cur.subrange(0, cur.len() - 4) =~= s@.subrange(0, end - 4));
        }
        end = end - 4;
    }
    proof {
        let cur = s@.subrange(0, end as int);
        reveal_strlit(".git");
        assert(".git"@.len() == 4);
        if cur.len() >= 4 && cur.subrange(cur.len() - 4, cur.len() as int) == ".git"@ {
            let sub = cur.subrange(cur.len() - 4, cur.len() as int);
            assert(sub[0] == cur[cur.len() - 4] && sub[1] == cur[cur.len() - 3] && sub[2]
                == cur[cur.len() - 2] && sub[3] == cur[cur.len() - 1]);
            assert(cur[cur.len() - 4] == s@[end - 4] && cur[cur.len() - 3] == s@[end - 3]
                && cur[cur.len() - 2] == s@[end - 2] && cur[cur.len() - 1] == s@[end - 1]);
            assert(sub[0] == ".git"@[0] && sub[1] == ".git"@[1] && sub[2] == ".git"@[2]
                && sub[3] == ".git"@[3]);
            assert(".git"@[0] == '.' && ".git"@[1] == 'g' && ".git"@[2] == 'i'
                && ".git"@[3] == 't');
            assert(false);
        }
        assert(trim_git_suffix(cur) == cur);
    }
    s.substring_char(0, end).to_owned()
}

/// The owner/repo pair read from a path shaped `owner/repo[/...]`, when
/// it has at least two segments.
pub open spec fn owner_repo_of_path(path: Seq<char>) -> Option<(Seq<char>, Seq<char>)> {
    let i = first_index_of(path, '/');
    if i == path.len() {
        None
    } else {
        let owner = path.subrange(0, i);
        let rest = path.subrange(i + 1, path.len() as int);
        let j = first_index_of(rest, '/');
        Some((owner, rest.subrange(0, j)))
    }
}

/// The owner and repository name parsed from a git remote URL: a
/// `https://host/owner/repo[.git]`, `http://` or `ssh://` form splits
/// after the host, an URL containing `git@` splits at its
/// `:owner/repo[.git]` tail, and anything else fails.
pub open spec fn repo_owner_name_of(url: Seq<char>) -> Option<(Seq<char>, Seq<char>)> {
    if starts_with_seq(url, "https://"@) || starts_with_seq(url, "http://"@)
        || starts_with_seq(url, "ssh://"@) {
        let rest = if starts_with_seq(url, "https://"@) {
            url.subrange(8, url.len() as int)
        } else if starts_with_seq(url, "http://"@) {
            url.subrange(7, url.len() as int)
        } else {
            url.subrange(6, url.len() as int)
        };
        let i = first_index_of(rest, '/');
        if i == rest.len() {
            None
        } else {
            owner_repo_of_path(
                trim_git_suffix(rest.subrange(i + 1, rest.len() as int)),
            )
        }
    } else if contains_seq(url, "git@"@) {
        let i = first_index_of(url, ':');
        if i == url.len() {
            None
        } else {
            owner_repo_of_path(trim_git_suffix(url.subrange(i + 1, url.len() as int)))
        }
    } else {
        None
    }
}

fn owner_repo_of_path_exec(path: &str) -> (r: Option<(String, String)>)
    ensures
        match owner_repo_of_path(path@) {
            Some(pair) => r matches Some(rp) && rp.0@ == pair.0 && rp.1@ == pair.1,
            None => r is None,
        },
{
    let n = path.unicode_len();
    let i = find_char(path, '/');
    if i == n {
        return None;
    }
    let owner = path.substring_char(0, i).to_owned();
    let rest = path.substring_char(i + 1, n);
    let j = find_char(rest, '/');
    let repo = rest.substring_char(0, j).to_owned();
    Some((owner, repo))
}

/// Parses owner and repository from the configured git URL; failure is
/// the apply error naming the URL.
pub fn parse_repo_owner_name(url: &str) -> (r: Result<(String, String), RecommenderError>)
    ensures
        match repo_owner_name_of(url@) {
            Some(pair) => r matches Ok(rp) && rp.0@ == pair.0 && rp.1@ == pair.1,
            None => r matches Err(e) && e matches RecommenderError::ApplyError(m) && m@
                == "Could not parse owner/repo from URL: "@ + url@,
        },
{
    let n = url.unicode_len();
    if str_starts_with(url, "https://") || str_starts_with(url, "http://") || str_starts_with(
        url,
        "ssh://",
    ) {
        let start: usize = if str_starts_with(url, "https://") {
            8
        } else if str_starts_with(url, "http://") {
            7
        } else {
            6
        };
        proof {
            reveal_strlit("https://");
            reveal_strlit("http://");
            reveal_strlit("ssh://");
        }
        let rest = url.substring_char(start, n);
        let i = find_char(rest, '/');
        if i != rest.unicode_len() {
            let tail = rest.substring_char(i + 1, rest.unicode_len());
            let trimmed = trim_git_suffix_exec(tail);
            match owner_repo_of_path_exec(trimmed.as_str()) {
                Some(pair) => {
                    return Ok(pair);
                },
                None => {},
            }
        }
    } else if str_contains(url, "git@") {
        let i = find_char(url, ':');
        if i != n {
            let tail = url.substring_char(i + 1, n);
            let trimmed = trim_git_suffix_exec(tail);
            match owner_repo_of_path_exec(trimmed.as_str()) {
                Some(pair) => {
                    return Ok(pair);
                },
                None => {},
            }
        }
    }
    let mut m = String::from_str("Could not parse owner/repo from URL: ");
    m.append(url);
    Err(RecommenderError::ApplyError(m))
}

/// The view of the updates list: each entry as its key's characters and
/// the count of updated documents.
pub open spec fn updates_view(us: Seq<(String, usize)>) -> Seq<(Seq<char>, int)> {
    us.map_values(|u: (String, usize)| (u.0@, u.1 as int))
}

/// Replaces the first entry with the given key, or appends a new one.
pub open spec fn upsert_update(
    us: Seq<(Seq<char>, int)>,
    key: Seq<char>,
    count: int,
) -> Seq<(Seq<char>, int)>
    decreases us.len(),
{
    if us.len() == 0 {
        seq![(key, count)]
    } else if us[0].0 == key {
        seq![(key, count)] + us.drop_first()
    } else {
        seq![us[0]] + upsert_update(us.drop_first(), key, count)
    }
}

/// The per-deployment lines of the commit message.
pub open spec fn commit_lines(us: Seq<(Seq<char>, int)>) -> Seq<char>
    decreases us.len(),
{
    if us.len() == 0 {
        Seq::empty()
    } else {
        "  - "@ + us[0].0 + "\n"@ + commit_lines(us.drop_first())
    }
}

/// The commit message for a set of updated deployments.
pub open spec fn commit_message_of(us: Seq<(Seq<char>, int)>) -> Seq<char> {
    "chore: apply resource recommendations\n\n"@
        + "Updated resource requests and limits for "@ + crate::strutil::decimal_digits(
        us.len(),
    ) + " deployment(s):\n"@ + commit_lines(us) + "\nGenerated by Kubernetes Resource Recommender"@
}

/// The bullet list of the pull-request description, one line per
/// deployment, joined by newlines.
pub open spec fn description_lines(us: Seq<(Seq<char>, int)>) -> Seq<char>
    decreases us.len(),
{
    if us.len() == 0 {
        Seq::empty()
    } else if us.len() == 1 {
        "- `"@ + us[0].0 + "`"@
    } else {
        "- `"@ + us[0].0 + "`"@ + "\n"@ + description_lines(us.drop_first())
    }
}

/// The Markdown body of the pull request.
pub open spec fn pr_description_of(us: Seq<(Seq<char>, int)>) -> Seq<char> {
    "## Automated Resource Recommendations\n\nThis PR applies resource recommendations generated by the Kubernetes Resource Recommender.\n\n### Changes\n\nUpdated "@
        + crate::strutil::decimal_digits(us.len()) + " deployment(s):\n"@ + description_lines(us)
        + "\n\n### Review Guidelines\n\n- Review the resource changes for each deployment\n- Ensure the new values are appropriate for your workload\n- Test in a non-production environment first\n\n---\n*Generated automatically by Kubernetes Resource Recommender*"@
}

/// The pull-request title, stamped with the given date.
pub open spec fn pr_title_of(date: Seq<char>) -> Seq<char> {
    "chore: apply resource recommendations ("@ + date + ")"@
}

/// The branch name for one run, stamped with the given timestamp.
pub open spec fn branch_name_of(timestamp: Seq<char>) -> Seq<char> {
    "autorightsizing-"@ + timestamp
}

/// The refspec that pushes the branch to the same name on the remote.
pub open spec fn refspec_of(branch: Seq<char>) -> Seq<char> {
    "refs/heads/"@ + branch + ":refs/heads/"@ + branch
}

/// Builds the branch name for one run.
pub fn branch_name_for(timestamp: &str) -> (r: String)
    ensures
        r@ == branch_name_of(timestamp@),
{
    let mut b = String::from_str("autorightsizing-");
    b.append(timestamp);
    b
}

/// Builds the push refspec for a branch.
pub fn refspec_for(branch: &str) -> (r: String)
    ensures
        r@ == refspec_of(branch@),
{
    let mut rs = String::from_str("refs/heads/");
    rs.append(branch);
    rs.append(":refs/heads/");
    rs.append(branch);
    rs
}

/// Builds the commit message listing the updated deployments.
pub fn generate_commit_message(updates: &Vec<(String, usize)>) -> (r: String)
    ensures
        r@ == commit_message_of(updates_view(updates@)),
{
    let ghost uv = updates_view(updates@);
    let mut m = String::from_str("chore: apply resource recommendations\n\n");
    m.append("Updated resource requests and limits for ");
    let n = crate::strutil::u64_to_string(updates.len() as u64);
    m.append(n.as_str());
    m.append(" deployment(s):\n");
    proof {
        assert(uv.len() == updates@.len());
    }
    let mut i: usize = 0;
    let ghost head = m@;
    while i < updates.len()
        invariant
            uv == updates_view(updates@),
            uv.len() == updates@.len(),
            i <= updates@.len(),
            m@ == head + commit_lines(uv.subrange(0, i as int)),
            forall|j: int| 0 <= j < uv.len() ==> #[trigger] uv[j] == (updates@[j].0@,
                updates@[j].1 as int),
        decreases updates@.len() - i,
    {
        proof {
            assert(commit_lines(uv.subrange(0, 0)) =~= Seq::<char>::empty());
        }
        m.append("  - ");
        m.append(updates[i].0.as_str());
        m.append("\n");
        proof {
            lemma_commit_lines_snoc(uv, i as int);
        }
        i += 1;
    }
    proof {
        assert(commit_lines(uv.subrange(0, 0)) =~= Seq::<char>::empty());
        assert(head + commit_lines(uv.subrange(0, 0)) =~= head);
        assert(uv.subrange(0, uv.len() as int) =~= uv);
    }
    m.append("\nGenerated by Kubernetes Resource Recommender");
    m
}

proof fn lemma_commit_lines_snoc(uv: Seq<(Seq<char>, int)>, i: int)
    requires
        0 <= i < uv.len(),
    ensures
        commit_lines(uv.subrange(0, i + 1)) == commit_lines(uv.subrange(0, i)) + "  - "@
            + uv[i].0 + "\n"@,
    decreases i,
{
    let pre = uv.subrange(0, i);
    let post = uv.subrange(0, i + 1);
    if i == 0 {
        assert(post.drop_first() =~= Seq::<(Seq<char>, int)>::empty());
        assert(post[0] == uv[0]);
        assert(commit_lines(post) == "  - "@ + post[0].0 + "\n"@ + commit_lines(
            post.drop_first()));
        assert(commit_lines(post.drop_first()) =~= Seq::<char>::empty());
        assert(commit_lines(pre) =~= Seq::<char>::empty());
        assert(commit_lines(post) =~= commit_lines(pre) + "  - "@ + uv[0].0 + "\n"@);
    } else {
        let shifted = uv.subrange(1, uv.len() as int);
        assert(post.drop_first() =~= shifted.subrange(0, i));
        assert(pre.drop_first() =~= shifted.subrange(0, i - 1));
        assert(shifted[i - 1] == uv[i]);
        lemma_commit_lines_snoc(shifted, i - 1);
        assert(post[0] == uv[0] && pre[0] == uv[0]);
        assert(commit_lines(post) =~= commit_lines(pre) + "  - "@ + uv[i].0 + "\n"@);
    }
}

proof fn lemma_description_lines_snoc(uv: Seq<(Seq<char>, int)>, i: int)
    requires
        0 <= i < uv.len(),
    ensures
        i == 0 ==> description_lines(uv.subrange(0, 1)) == "- `"@ + uv[0].0 + "`"@,
        i > 0 ==> description_lines(uv.subrange(0, i + 1)) == description_lines(
            uv.subrange(0, i),
        ) + "\n"@ + "- `"@ + uv[i].0 + "`"@,
    decreases i,
{
    let pre = uv.subrange(0, i);
    let post = uv.subrange(0, i + 1);
    if i == 0 {
        assert(post.len() == 1);
        assert(post[0] == uv[0]);
    } else {
        let shifted = uv.subrange(1, uv.len() as int);
        assert(post.drop_first() =~= shifted.subrange(0, i));
        assert(pre.drop_first() =~= shifted.subrange(0, i - 1));
        assert(shifted[i - 1] == uv[i]);
        lemma_description_lines_snoc(shifted, i - 1);
        assert(post[0] == uv[0] && pre[0] == uv[0]);
        if i == 1 {
            assert(description_lines(post) =~= description_lines(pre) + "\n"@ + "- `"@
                + uv[i].0 + "`"@);
        } else {
            assert(description_lines(post) =~= description_lines(pre) + "\n"@ + "- `"@
                + uv[i].0 + "`"@);
        }
    }
}

/// Builds the Markdown description of the pull request.
pub fn prepare_pr_description(updates: &Vec<(String, usize)>) -> (r: String)
    ensures
        r@ == pr_description_of(updates_view(updates@)),
{
    let ghost uv = updates_view(updates@);
    let mut m = String::from_str(
        "## Automated Resource Recommendations\n\nThis PR applies resource recommendations generated by the Kubernetes Resource Recommender.\n\n### Changes\n\nUpdated ",
    );
    let n = crate::strutil::u64_to_string(updates.len() as u64);
    m.append(n.as_str());
    m.append(" deployment(s):\n");
    let ghost head = m@;
    let mut i: usize = 0;
    while i < updates.len()
        invariant
            uv == updates_view(updates@),
            uv.len() == updates@.len(),
            i <= updates@.len(),
            m@ == head + description_lines(uv.subrange(0, i as int)),
            forall|j: int| 0 <= j < uv.len() ==> #[trigger] uv[j] == (updates@[j].0@,
                updates@[j].1 as int),
        decreases updates@.len() - i,
    {
        if i > 0 {
            m.append("\n");
        }
        m.append("- `");
        m.append(updates[i].0.as_str());
        m.append("`");
        proof {
            lemma_description_lines_snoc(uv, i as int);
            if i == 0 {
                assert(description_lines(uv.subrange(0, 0)) =~= Seq::<char>::empty());
                assert(m@ =~= head + description_lines(uv.subrange(0, 1)));
            } else {
                assert(m@ =~= head + description_lines(uv.subrange(0, i + 1)));
            }
        }
        i += 1;
    }
    proof {
        assert(description_lines(uv.subrange(0, 0)) =~= Seq::<char>::empty());
        assert(head + description_lines(uv.subrange(0, 0)) =~= head);
        assert(uv.subrange(0, uv.len() as int) =~= uv);
    }
    m.append(
        "\n\n### Review Guidelines\n\n- Review the resource changes for each deployment\n- Ensure the new values are appropriate for your workload\n- Test in a non-production environment first\n\n---\n*Generated automatically by Kubernetes Resource Recommender*",
    );
    m
}

/// Builds the dated pull-request title.
pub fn pr_title(date: &str) -> (r: String)
    ensures
        r@ == pr_title_of(date@),
{
    let mut t = String::from_str("chore: apply resource recommendations (");
    t.append(date);
    t.append(")");
    t
}

/// Records one recommendation's update count under `namespace/deployment`,
/// replacing an earlier count for the same key; a zero count records
/// nothing.
pub fn record_update(
    updates: &mut Vec<(String, usize)>,
    namespace: &str,
    deployment: &str,
    count: usize,
)
    ensures
        count == 0 ==> final(updates)@ == old(updates)@,
        count > 0 ==> updates_view(final(updates)@) == upsert_update(
            updates_view(old(updates)@),
            namespace@ + "/"@ + deployment@,
            count as int,
        ),
{
    if count == 0 {
        return;
    }
    let mut key = namespace.to_owned();
    key.append("/");
    key.append(deployment);
    let ghost kv = namespace@ + "/"@ + deployment@;
    let ghost pre = updates@;
    let mut i: usize = 0;
    while i < updates.len()
        invariant
            count > 0,
            pre == old(updates)@,
            updates@ == pre,
            kv == key@,
            kv == namespace@ + "/"@ + deployment@,
            i <= pre.len(),
            forall|j: int| 0 <= j < i ==> #[trigger] pre[j].0@ != kv,
        decreases pre.len() - i,
    {
        if crate::strutil::str_eq(updates[i].0.as_str(), key.as_str()) {
            let (old_key, _old_count) = updates.remove(i);
            updates.insert(i, (old_key, count));
            proof {
                assert(updates@ =~= pre.update(i as int, (pre[i as int].0, count)));
                lemma_upsert_found(updates_view(pre), kv, count as int, i as int);
                assert(updates_view(updates@) =~= updates_view(pre).update(i as int, (kv,
                    count as int)));
            }
            return;
        }
        i += 1;
    }
    updates.push((key, count));
    proof {
        lemma_upsert_missing(updates_view(pre), kv, count as int);
        assert(updates_view(updates@) =~= updates_view(pre).push((kv, count as int)));
    }
}

proof fn lemma_upsert_found(us: Seq<(Seq<char>, int)>, key: Seq<char>, count: int, i: int)
    requires
        0 <= i < us.len(),
        us[i].0 == key,
        forall|j: int| 0 <= j < i ==> #[trigger] us[j].0 != key,
    ensures
        upsert_update(us, key, count) == us.update(i, (key, count)),
    decreases i,
{
    if i == 0 {
        assert(upsert_update(us, key, count) =~= us.update(0, (key, count)));
    } else {
        assert(forall|j: int| 0 <= j < i - 1 ==> #[trigger] us.drop_first()[j] == us[j + 1]);
        assert(us.drop_first()[i - 1] == us[i]);
        lemma_upsert_found(us.drop_first(), key, count, i - 1);
        assert(upsert_update(us, key, count) =~= us.update(i, (key, count)));
    }
}

proof fn lemma_upsert_missing(us: Seq<(Seq<char>, int)>, key: Seq<char>, count: int)
    requires
        forall|j: int| 0 <= j < us.len() ==> #[trigger] us[j].0 != key,
    ensures
        upsert_update(us, key, count) == us.push((key, count)),
    decreases us.len(),
{
    if us.len() == 0 {
        assert(upsert_update(us, key, count) =~= us.push((key, count)));
    } else {
        assert(forall|j: int|
            0 <= j < us.len() - 1 ==> #[trigger] us.drop_first()[j] == us[j + 1]);
        lemma_upsert_missing(us.drop_first(), key, count);
        assert(upsert_update(us, key, count) =~= us.push((key, count)));
    }
}

/// A JSON string escape of one character: quote, backslash and the named
/// control characters get a backslash form, other control characters the
/// `\u00XX` form, everything else stands as itself.
pub open spec fn json_escaped_char(c: char) -> Seq<char> {
    if c == '"' {
        seq!['\\', '"']
    } else if c == '\\' {
        seq!['\\', '\\']
    } else if c == '\u{8}' {
        seq!['\\', 'b']
    } else if c == '\u{c}' {
        seq!['\\', 'f']
    } else if c == '\n' {
        seq!['\\', 'n']
    } else if c == '\r' {
        seq!['\\', 'r']
    } else if c == '\t' {
        seq!['\\', 't']
    } else if (c as u32) < 32 {
        seq!['\\', 'u', '0', '0', hex_lower((c as u32) as nat / 16), hex_lower(
            (c as u32) as nat % 16,
        )]
    } else {
        seq![c]
    }
}

pub open spec fn hex_lower(d: nat) -> char {
    if d < 10 {
        crate::strutil::dec_char(d)
    } else if d == 10 { 'a' } else if d == 11 { 'b' } else if d == 12 { 'c' }
    else if d == 13 { 'd' } else if d == 14 { 'e' } else { 'f' }
}

/// The JSON escape of a whole string, between (not including) quotes.
pub open spec fn json_escaped(s: Seq<char>) -> Seq<char>
    decreases s.len(),
{
    if s.len() == 0 {
        Seq::empty()
    } else {
        json_escaped_char(s[0]) + json_escaped(s.drop_first())
    }
}

fn hex_lower_exec(d: u32) -> (r: char)
    requires
        d < 16,
    ensures
        r == hex_lower(d as nat),
{
    match d {
        0 => '0', 1 => '1', 2 => '2', 3 => '3', 4 => '4', 5 => '5', 6 => '6', 7 => '7',
        8 => '8', 9 => '9', 10 => 'a', 11 => 'b', 12 => 'c', 13 => 'd', 14 => 'e', _ => 'f',
    }
}

fn append_json_escaped_char(out: &mut String, c: char)
    ensures
        final(out)@ == old(out)@ + json_escaped_char(c),
{
    if c == '"' {
        push_char(out, '\\');
        push_char(out, '"');
    } else if c == '\\' {
        push_char(out, '\\');
        push_char(out, '\\');
    } else if c == '\u{8}' {
        push_char(out, '\\');
        push_char(out, 'b');
    } else if c == '\u{c}' {
        push_char(out, '\\');
        push_char(out, 'f');
    } else if c == '\n' {
        push_char(out, '\\');
        push_char(out, 'n');
    } else if c == '\r' {
        push_char(out, '\\');
        push_char(out, 'r');
    } else if c == '\t' {
        push_char(out, '\\');
        push_char(out, 't');
    } else if (c as u32) < 32 {
        push_char(out, '\\');
        push_char(out, 'u');
        push_char(out, '0');
        push_char(out, '0');
        push_char(out, hex_lower_exec((c as u32) / 16));
        push_char(out, hex_lower_exec((c as u32) % 16));
    } else {
        push_char(out, c);
    }
    proof {
        assert(out@ =~= old(out)@ + json_escaped_char(c));
    }
}

/// Appends the JSON escape of `s` to `out`.
fn append_json_escaped(out: &mut String, s: &str)
    ensures
        final(out)@ == old(out)@ + json_escaped(s@),
{
    let n = s.unicode_len();
    let mut i: usize = 0;
    proof {
        assert(out@ =~= old(out)@ + json_escaped(s@.subrange(0, 0)));
    }
    while i < n
        invariant
            i <= n,
            n == s@.len(),
            out@ == old(out)@ + json_escaped(s@.subrange(0, i as int)),
        decreases n - i,
    {
        append_json_escaped_char(out, s.get_char(i));
        proof {
            lemma_json_escaped_snoc(s@, i as int);
        }
        i += 1;
    }
    proof {
        assert(s@.subrange(0, n as int) =~= s@);
    }
}

proof fn lemma_json_escaped_snoc(s: Seq<char>, i: int)
    requires
        0 <= i < s.len(),
    ensures
        json_escaped(s.subrange(0, i + 1)) == json_escaped(s.subrange(0, i))
            + json_escaped_char(s[i]),
    decreases i,
{
    let pre = s.subrange(0, i);
    let post = s.subrange(0, i + 1);
    if i == 0 {
        assert(post.drop_first() =~= Seq::<char>::empty());
        assert(post[0] == s[0]);
        assert(json_escaped(post.drop_first()) =~= Seq::<char>::empty());
        assert(json_escaped(pre) =~= Seq::<char>::empty());
        assert(json_escaped(post) =~= json_escaped(pre) + json_escaped_char(s[0]));
    } else {
        let shifted = s.subrange(1, s.len() as int);
        assert(post.drop_first() =~= shifted.subrange(0, i));
        assert(pre.drop_first() =~= shifted.subrange(0, i - 1));
        assert(shifted[i - 1] == s[i]);
        lemma_json_escaped_snoc(shifted, i - 1);
        assert(post[0] == s[0] && pre[0] == s[0]);
        assert(json_escaped(post) =~= json_escaped(pre) + json_escaped_char(s[i]));
    }
}

/// A quoted, escaped JSON string value.
pub open spec fn json_string(s: Seq<char>) -> Seq<char> {
    seq!['"'] + json_escaped(s) + seq!['"']
}

fn append_json_string(out: &mut String, s: &str)
    ensures
        final(out)@ == old(out)@ + json_string(s@),
{
    push_char(out, '"');
    append_json_escaped(out, s);
    push_char(out, '"');
    proof {
        assert(out@ =~= old(out)@ + json_string(s@));
    }
}

/// The request body for a GitHub or Gitea pull request, keys in the
/// serializer's sorted order.
pub open spec fn pulls_body_of(
    title: Seq<char>,
    head: Seq<char>,
    base: Seq<char>,
    body: Seq<char>,
) -> Seq<char> {
    "{\"base\":"@ + json_string(base) + ",\"body\":"@ + json_string(body) + ",\"head\":"@
        + json_string(head) + ",\"title\":"@ + json_string(title) + "}"@
}

/// The request body for a GitLab merge request.
pub open spec fn merge_request_body_of(
    title: Seq<char>,
    source: Seq<char>,
    target: Seq<char>,
    description: Seq<char>,
) -> Seq<char> {
    "{\"description\":"@ + json_string(description) + ",\"source_branch\":"@ + json_string(
        source,
    ) + ",\"target_branch\":"@ + json_string(target) + ",\"title\":"@ + json_string(title)
        + "}"@
}

/// The request body for a Bitbucket pull request, with its nested branch
/// objects.
pub open spec fn bitbucket_body_of(
    title: Seq<char>,
    source: Seq<char>,
    destination: Seq<char>,
    description: Seq<char>,
) -> Seq<char> {
    "{\"description\":"@ + json_string(description) + ",\"destination\":{\"branch\":{\"name\":"@
        + json_string(destination) + "}},\"source\":{\"branch\":{\"name\":"@ + json_string(
        source,
    ) + "}},\"title\":"@ + json_string(title) + "}"@
}

pub open spec fn is_url_unreserved(c: char) -> bool {
    ('0' <= c && c <= '9') || ('A' <= c && c <= 'Z') || ('a' <= c && c <= 'z') || c == '-'
        || c == '.' || c == '_' || c == '~'
}

pub open spec fn hex_upper(d: nat) -> char {
    if d < 10 {
        crate::strutil::dec_char(d)
    } else if d == 10 { 'A' } else if d == 11 { 'B' } else if d == 12 { 'C' }
    else if d == 13 { 'D' } else if d == 14 { 'E' } else { 'F' }
}

/// Percent-encoding of an ASCII string: every character but the
/// unreserved ones becomes `%` and two uppercase hex digits.
pub open spec fn urlencoded(s: Seq<char>) -> Seq<char>
    decreases s.len(),
{
    if s.len() == 0 {
        Seq::empty()
    } else {
        let head = if is_url_unreserved(s[0]) {
            seq![s[0]]
        } else {
            seq!['%', hex_upper((s[0] as u32) as nat / 16), hex_upper((s[0] as u32) as nat % 16)]
        };
        head + urlencoded(s.drop_first())
    }
}

/// Relies on urlencoding::encode: percent-encodes every byte except the
/// ASCII alphanumerics and `-`, `.`, `_`, `~`, writing uppercase hex
/// digits. Stated for ASCII input, where bytes and characters coincide.
#[verifier::external_body]
fn url_encode(s: &str) -> (r: String)
    ensures
        vstd::string::is_ascii(s) ==> r@ == urlencoded(s@),
{
    urlencoding::encode(s).into_owned()
}

/// The host of a parsed URL, when the text is a URL with a host. A
/// function of the text alone.
pub uninterp spec fn url_host_of(s: Seq<char>) -> Option<Seq<char>>;

/// Relies on url::Url::parse and Url::host_str: the host part of the
/// URL, or nothing when the text does not parse or has no host.
#[verifier::external_body]
fn url_host(s: &str) -> (r: Option<String>)
    ensures
        (r is Some) == (url_host_of(s@) is Some),
        r matches Some(h) ==> Some(h@) == url_host_of(s@),
{
    url::Url::parse(s).ok().and_then(|u| u.host_str().map(|h| h.to_string()))
}

/// What a JSON document holds as a string at a field path: nothing when
/// the text is not JSON, `Some(None)` when the path is missing or not a
/// string, and the string otherwise. A function of the text alone.
pub uninterp spec fn json_str_field(s: Seq<char>, path: Seq<Seq<char>>) -> Option<
    Option<Seq<char>>,
>;

/// Relies on serde_json::from_str and Value::get/as_str: looks up a
/// string at a field path of a JSON document; `Err` carries the parse
/// error's text when the body is not JSON.
#[verifier::external_body]
fn json_string_at(text: &str, path: &Vec<String>) -> (r: Result<Option<String>, String>)
    ensures
        (r is Ok) == (json_str_field(text@, path@.map_values(|p: String| p@)) is Some),
        r matches Ok(ro) ==> (match (ro, json_str_field(text@, path@.map_values(|p: String| p@))
            .unwrap()) {
            (Some(a), Some(b)) => a@ == b,
            (None, None) => true,
            _ => false,
        }),
{
    let v: serde_json::Value = match serde_json::from_str(text) {
        Ok(v) => v,
        Err(e) => return Err(e.to_string()),
    };
    let mut cur = &v;
    for key in path.iter() {
        match cur.get(key.as_str()) {
            Some(next) => cur = next,
            None => return Ok(None),
        }
    }
    Ok(cur.as_str().map(|s| s.to_string()))
}

/// One ready-to-send pull-request call: where to post, the
/// authentication header, and the JSON body.
#[derive(Debug)]
pub struct PrRequest {
    pub url: String,
    pub header_name: String,
    pub header_value: String,
    pub accept: Option<String>,
    pub user_agent: String,
    pub body: String,
}

/// The mathematical content of a prepared call: every text as its
/// characters.
pub struct PrRequestView {
    pub url: Seq<char>,
    pub header_name: Seq<char>,
    pub header_value: Seq<char>,
    pub accept: Option<Seq<char>>,
    pub user_agent: Seq<char>,
    pub body: Seq<char>,
}

impl View for PrRequest {
    type V = PrRequestView;

    open spec fn view(&self) -> PrRequestView {
        PrRequestView {
            url: self.url@,
            header_name: self.header_name@,
            header_value: self.header_value@,
            accept: match self.accept {
                Some(a) => Some(a@),
                None => None,
            },
            user_agent: self.user_agent@,
            body: self.body@,
        }
    }
}

/// Extracts the URL out of a provider's 2xx response, or turns the
/// response into the apply error; a non-2xx status is the API error with
/// the status number and the body text.
pub fn handle_api_response(status: u16, body: &str, url_field: &str) -> (r: Result<
    String,
    RecommenderError,
>)
    ensures
        !(200 <= status < 300) ==> (r matches Err(e) && e
            matches RecommenderError::ApplyError(m) && m@ == "API error ("@
            + crate::strutil::decimal_digits(status as nat) + "): "@ + body@),
        (200 <= status < 300) ==> match json_str_field(body@, seq![url_field@]) {
            Some(Some(u)) => r matches Ok(s) && s@ == u,
            Some(None) => r matches Err(e) && e matches RecommenderError::ApplyError(m) && m@
                == "No URL in API response"@,
            None => r matches Err(e) && e matches RecommenderError::ApplyError(m)
                && starts_with_seq(m@, "Failed to parse API response: "@),
        },
{
    if !(200 <= status && status < 300) {
        let mut m = String::from_str("API error (");
        let code = crate::strutil::u64_to_string(status as u64);
        m.append(code.as_str());
        m.append("): ");
        m.append(body);
        return Err(RecommenderError::ApplyError(m));
    }
    let mut path: Vec<String> = Vec::new();
    path.push(url_field.to_owned());
    proof {
        assert(path@.map_values(|p: String| p@) =~= seq![url_field@]);
    }
    match json_string_at(body, &path) {
        Ok(Some(u)) => Ok(u),
        Ok(None) => Err(RecommenderError::ApplyError(String::from_str(
            "No URL in API response",
        ))),
        Err(e) => {
            let mut m = String::from_str("Failed to parse API response: ");
            m.append(e.as_str());
            proof {
                assert(m@.subrange(0, "Failed to parse API response: "@.len() as int)
                    =~= "Failed to parse API response: "@);
            }
            Err(RecommenderError::ApplyError(m))
        },
    }
}

/// Extracts the pull-request URL out of a Bitbucket response, whose
/// success field sits nested under `links.html.href`.
pub fn handle_bitbucket_response(body: &str) -> (r: Result<String, RecommenderError>)
    ensures
        match json_str_field(body@, seq!["links"@, "html"@, "href"@]) {
            Some(Some(u)) => r matches Ok(s) && s@ == u,
            Some(None) => r matches Err(e) && e matches RecommenderError::ApplyError(m) && m@
                == "No PR URL in response"@,
            None => r matches Err(e) && e matches RecommenderError::ApplyError(m)
                && starts_with_seq(m@, "Failed to parse PR response: "@),
        },
{
    let mut path: Vec<String> = Vec::new();
    path.push(String::from_str("links"));
    path.push(String::from_str("html"));
    path.push(String::from_str("href"));
    proof {
        assert(path@.map_values(|p: String| p@) =~= seq!["links"@, "html"@, "href"@]);
    }
    match json_string_at(body, &path) {
        Ok(Some(u)) => Ok(u),
        Ok(None) => Err(RecommenderError::ApplyError(String::from_str(
            "No PR URL in response",
        ))),
        Err(e) => {
            let mut m = String::from_str("Failed to parse PR response: ");
            m.append(e.as_str());
            proof {
                assert(m@.subrange(0, "Failed to parse PR response: "@.len() as int)
                    =~= "Failed to parse PR response: "@);
            }
            Err(RecommenderError::ApplyError(m))
        },
    }
}

/// Builds the provider-specific pull-request call: endpoint, header and
/// body. `Generic` has no automatic pull request, and a missing token is
/// refused before anything is sent.
pub fn build_pull_request(
    config: &UpdaterConfig,
    head_branch: &str,
    base_branch: &str,
    updates: &Vec<(String, usize)>,
    date: &str,
) -> (r: Result<PrRequest, RecommenderError>)
    ensures
        config.provider == GitProvider::Generic ==> (r matches Err(e) && e
            matches RecommenderError::ApplyError(m) && m@
            == "Automatic PR creation not supported for this Git provider. Please create PR manually."@),
        (config.provider != GitProvider::Generic && config.auth_token is None) ==> (r
            matches Err(e) && e matches RecommenderError::ApplyError(m) && m@
            == "Authentication token required for creating pull requests"@),
        (config.provider != GitProvider::Generic && config.auth_token is Some
            && repo_owner_name_of(config.git_url@) is None) ==> (r matches Err(e) && e
            matches RecommenderError::ApplyError(m) && m@
            == "Could not parse owner/repo from URL: "@ + config.git_url@),
        (config.provider == GitProvider::Bitbucket && config.auth_token is Some
            && repo_owner_name_of(config.git_url@) is Some) ==> (r matches Ok(req) && req@
            == PrRequestView {
            url: "https://api.bitbucket.org/2.0/repositories/"@ + repo_owner_name_of(
                config.git_url@,
            ).unwrap().0 + "/"@ + repo_owner_name_of(config.git_url@).unwrap().1
                + "/pullrequests"@,
            header_name: "Authorization"@,
            header_value: "Bearer "@ + config.auth_token.unwrap()@,
            accept: None,
            user_agent: "kubernetes-recommender"@,
            body: bitbucket_body_of(pr_title_of(date@), head_branch@, base_branch@,
                pr_description_of(updates_view(updates@))),
        }),
        ((config.provider == GitProvider::GitHub || config.provider == GitProvider::Gitea)
            && config.auth_token is Some && repo_owner_name_of(config.git_url@) is Some)
            ==> match url_host_of(config.git_url@) {
            None => r matches Err(e) && e matches RecommenderError::ApplyError(m) && m@
                == "Could not determine API base URL"@,
            Some(h) => r matches Ok(req) && req@ == PrRequestView {
                url: api_base_of(config.provider, h).unwrap() + "/repos/"@
                    + repo_owner_name_of(config.git_url@).unwrap().0 + "/"@
                    + repo_owner_name_of(config.git_url@).unwrap().1 + "/pulls"@,
                header_name: "Authorization"@,
                header_value: "token "@ + config.auth_token.unwrap()@,
                accept: if config.provider == GitProvider::GitHub {
                    Some("application/vnd.github.v3+json"@)
                } else {
                    None
                },
                user_agent: "kubernetes-recommender"@,
                body: pulls_body_of(pr_title_of(date@), head_branch@, base_branch@,
                    pr_description_of(updates_view(updates@))),
            },
        },
        (config.provider == GitProvider::GitLab && config.auth_token is Some
            && repo_owner_name_of(config.git_url@) is Some) ==> match url_host_of(
            config.git_url@,
        ) {
            None => r matches Err(e) && e matches RecommenderError::ApplyError(m) && m@
                == "Could not determine API base URL"@,
            Some(h) => r matches Ok(req) && req.header_name@ == "PRIVATE-TOKEN"@
                && req.header_value@ == config.auth_token.unwrap()@ && req.accept is None
                && req.user_agent@ == "kubernetes-recommender"@ && req.body@
                == merge_request_body_of(
                pr_title_of(date@),
                head_branch@,
                base_branch@,
                pr_description_of(updates_view(updates@)),
            ) && (vstd::utf8::is_ascii_chars(
                repo_owner_name_of(config.git_url@).unwrap().0 + "/"@ + repo_owner_name_of(
                    config.git_url@,
                ).unwrap().1,
            ) ==> req.url@ == api_base_of(GitProvider::GitLab, h).unwrap() + "/projects/"@
                + urlencoded(
                repo_owner_name_of(config.git_url@).unwrap().0 + "/"@ + repo_owner_name_of(
                    config.git_url@,
                ).unwrap().1,
            ) + "/merge_requests"@),
        },
{
    if let GitProvider::Generic = config.provider {
        return Err(RecommenderError::ApplyError(String::from_str(
            "Automatic PR creation not supported for this Git provider. Please create PR manually.",
        )));
    }
    let token = match &config.auth_token {
        Some(t) => t.clone(),
        None => {
            return Err(RecommenderError::ApplyError(String::from_str(
                "Authentication token required for creating pull requests",
            )));
        },
    };
    let (owner, repo) = match parse_repo_owner_name(config.git_url.as_str()) {
        Ok(pair) => pair,
        Err(e) => {
            return Err(e);
        },
    };
    let title = pr_title(date);
    let description = prepare_pr_description(updates);
    match config.provider {
        GitProvider::Bitbucket => {
            let mut u = String::from_str("https://api.bitbucket.org/2.0/repositories/");
            u.append(owner.as_str());
            u.append("/");
            u.append(repo.as_str());
            u.append("/pullrequests");
            let mut body = String::from_str("{\"description\":");
            append_json_string(&mut body, description.as_str());
            body.append(",\"destination\":{\"branch\":{\"name\":");
            append_json_string(&mut body, base_branch);
            body.append("}},\"source\":{\"branch\":{\"name\":");
            append_json_string(&mut body, head_branch);
            body.append("}},\"title\":");
            append_json_string(&mut body, title.as_str());
            body.append("}");
            let mut hv = String::from_str("Bearer ");
            hv.append(token.as_str());
            proof {
                assert(body@ =~= bitbucket_body_of(pr_title_of(date@), head_branch@,
                    base_branch@, pr_description_of(updates_view(updates@))));
                assert(u@ =~= "https://api.bitbucket.org/2.0/repositories/"@ + owner@ + "/"@
                    + repo@ + "/pullrequests"@);
            }
            Ok(PrRequest {
                url: u,
                header_name: String::from_str("Authorization"),
                header_value: hv,
                accept: None,
                user_agent: String::from_str("kubernetes-recommender"),
                body,
            })
        },
        GitProvider::GitLab => {
            let host = match url_host(config.git_url.as_str()) {
                Some(h) => h,
                None => {
                    return Err(RecommenderError::ApplyError(String::from_str(
                        "Could not determine API base URL",
                    )));
                },
            };
            let api_base = match config.provider.api_base_url(host.as_str()) {
                Some(b) => b,
                None => {
                    return Err(RecommenderError::ApplyError(String::from_str(
                        "Could not determine API base URL",
                    )));
                },
            };
            let mut project = owner.clone();
            project.append("/");
            project.append(repo.as_str());
            let encoded = url_encode(project.as_str());
            let mut u = api_base;
            u.append("/projects/");
            u.append(encoded.as_str());
            u.append("/merge_requests");
            let mut body = String::from_str("{\"description\":");
            append_json_string(&mut body, description.as_str());
            body.append(",\"source_branch\":");
            append_json_string(&mut body, head_branch);
            body.append(",\"target_branch\":");
            append_json_string(&mut body, base_branch);
            body.append(",\"title\":");
            append_json_string(&mut body, title.as_str());
            body.append("}");
            proof {
                assert(body@ =~= merge_request_body_of(pr_title_of(date@), head_branch@,
                    base_branch@, pr_description_of(updates_view(updates@))));
                assert(project@ =~= owner@ + "/"@ + repo@);
                if vstd::utf8::is_ascii_chars(project@) {
                    assert(u@ =~= api_base_of(GitProvider::GitLab, host@).unwrap()
                        + "/projects/"@ + urlencoded(project@) + "/merge_requests"@);
                }
            }
            Ok(PrRequest {
                url: u,
                header_name: String::from_str("PRIVATE-TOKEN"),
                header_value: token,
                accept: None,
                user_agent: String::from_str("kubernetes-recommender"),
                body,
            })
        },
        _ => {
            let host = match url_host(config.git_url.as_str()) {
                Some(h) => h,
                None => {
                    return Err(RecommenderError::ApplyError(String::from_str(
                        "Could not determine API base URL",
                    )));
                },
            };
            let api_base = match config.provider.api_base_url(host.as_str()) {
                Some(b) => b,
                None => {
                    return Err(RecommenderError::ApplyError(String::from_str(
                        "Could not determine API base URL",
                    )));
                },
            };
            let mut u = api_base;
            u.append("/repos/");
            u.append(owner.as_str());
            u.append("/");
            u.append(repo.as_str());
            u.append("/pulls");
            let mut body = String::from_str("{\"base\":");
            append_json_string(&mut body, base_branch);
            body.append(",\"body\":");
            append_json_string(&mut body, description.as_str());
            body.append(",\"head\":");
            append_json_string(&mut body, head_branch);
            body.append(",\"title\":");
            append_json_string(&mut body, title.as_str());
            body.append("}");
            let mut hv = String::from_str("token ");
            hv.append(token.as_str());
            let accept = if let GitProvider::GitHub = config.provider {
                Some(String::from_str("application/vnd.github.v3+json"))
            } else {
                None
            };
            proof {
                assert(body@ =~= pulls_body_of(pr_title_of(date@), head_branch@, base_branch@,
                    pr_description_of(updates_view(updates@))));
                assert(u@ =~= api_base_of(config.provider, host@).unwrap() + "/repos/"@
                    + owner@ + "/"@ + repo@ + "/pulls"@);
            }
            Ok(PrRequest {
                url: u,
                header_name: String::from_str("Authorization"),
                header_value: hv,
                accept,
                user_agent: String::from_str("kubernetes-recommender"),
                body,
            })
        },
    }
}

/// The username an HTTPS credential uses: the configured one first, then
/// the one embedded in the URL, then the literal `git`.
pub open spec fn credential_username_of(
    configured: Option<Seq<char>>,
    from_url: Option<Seq<char>>,
) -> Seq<char> {
    match configured {
        Some(u) => u,
        None => match from_url {
            Some(u) => u,
            None => "git"@,
        },
    }
}

/// Picks the username for an HTTPS token credential, by the priority the
/// workflow fixes: configured, then URL-embedded, then `git`.
pub fn credential_username(configured: &Option<String>, from_url: &Option<String>) -> (r:
    String)
    ensures
        r@ == credential_username_of(
            match configured {
                Some(u) => Some(u@),
                None => None,
            },
            match from_url {
                Some(u) => Some(u@),
                None => None,
            },
        ),
{
    match configured {
        Some(u) => u.clone(),
        None => match from_url {
            Some(u) => u.clone(),
            None => String::from_str("git"),
        },
    }
}

/// The phases of one apply run, in the order the workflow passes them.
#[derive(Clone, Copy, Debug, PartialEq, Eq, Structural)]
pub enum WorkflowPhase {
    Created,
    Cloned,
    Branched,
    Applied,
    Committed,
    Pushed,
    Completed,
    Failed,
}

/// The result of one completed apply run.
#[derive(Clone, Debug)]
pub struct ApplyOutcome {
    pub branch: String,
    pub commit_sha: String,
    pub pr_url: Option<String>,
}

/// The apply workflow's state: clone, branch, patch, commit, push, pull
/// request, in that order and no other. The file system and network
/// steps happen outside; each `on_*` call records that a step finished
/// and hands back what the next step needs.
pub struct ApplyWorkflow {
    pub config: UpdaterConfig,
    pub phase: WorkflowPhase,
    pub base_branch: String,
    pub new_branch: Option<String>,
    pub updates: Vec<(String, usize)>,
    pub commit_sha: Option<String>,
}

impl ApplyWorkflow {
    pub fn new(config: UpdaterConfig, base_branch: String) -> (r: Self)
        ensures
            r.phase == WorkflowPhase::Created,
            r.config == config,
            r.base_branch == base_branch,
            r.new_branch is None,
            r.updates@.len() == 0,
            r.commit_sha is None,
    {
        Self {
            config,
            phase: WorkflowPhase::Created,
            base_branch,
            new_branch: None,
            updates: Vec::new(),
            commit_sha: None,
        }
    }

    /// The clone finished; names the run's new branch after the given
    /// timestamp.
    pub fn on_cloned(&mut self, timestamp: &str) -> (r: String)
        requires
            old(self).phase == WorkflowPhase::Created,
        ensures
            final(self).phase == WorkflowPhase::Cloned,
            r@ == branch_name_of(timestamp@),
            final(self).new_branch matches Some(b) && b@ == branch_name_of(timestamp@),
            final(self).config == old(self).config,
            final(self).base_branch == old(self).base_branch,
            final(self).updates == old(self).updates,
    {
        let branch = branch_name_for(timestamp);
        self.new_branch = Some(branch.clone());
        self.phase = WorkflowPhase::Cloned;
        branch
    }

    /// The new branch is checked out.
    pub fn on_branched(&mut self)
        requires
            old(self).phase == WorkflowPhase::Cloned,
        ensures
            final(self).phase == WorkflowPhase::Branched,
            final(self).config == old(self).config,
            final(self).base_branch == old(self).base_branch,
            final(self).new_branch == old(self).new_branch,
            final(self).updates == old(self).updates,
    {
        self.phase = WorkflowPhase::Branched;
    }

    /// Records one recommendation's update count, keyed by
    /// `namespace/deployment`.
    pub fn record_update(&mut self, namespace: &str, deployment: &str, count: usize)
        requires
            old(self).phase == WorkflowPhase::Branched,
        ensures
            final(self).phase == WorkflowPhase::Branched,
            final(self).config == old(self).config,
            final(self).base_branch == old(self).base_branch,
            final(self).new_branch == old(self).new_branch,
            count == 0 ==> final(self).updates@ == old(self).updates@,
            count > 0 ==> updates_view(final(self).updates@) == upsert_update(
                updates_view(old(self).updates@),
                namespace@ + "/"@ + deployment@,
                count as int,
            ),
    {
        record_update(&mut self.updates, namespace, deployment, count);
    }

    /// All files are patched. With at least one update the commit message
    /// comes back; with none, the run fails with the manifest-not-found
    /// error and no commit or push can follow.
    pub fn on_applied(&mut self) -> (r: Result<String, RecommenderError>)
        requires
            old(self).phase == WorkflowPhase::Branched,
        ensures
            final(self).config == old(self).config,
            final(self).base_branch == old(self).base_branch,
            final(self).new_branch == old(self).new_branch,
            final(self).updates == old(self).updates,
            old(self).updates@.len() == 0 ==> final(self).phase == WorkflowPhase::Failed && (
            r matches Err(e) && e matches RecommenderError::ApplyError(m) && m@
                == "No matching deployments found in repository"@),
            old(self).updates@.len() > 0 ==> final(self).phase == WorkflowPhase::Applied && (
            r matches Ok(m) && m@ == commit_message_of(updates_view(old(self).updates@))),
    {
        if self.updates.len() == 0 {
            self.phase = WorkflowPhase::Failed;
            return Err(RecommenderError::ApplyError(String::from_str(
                "No matching deployments found in repository",
            )));
        }
        self.phase = WorkflowPhase::Applied;
        Ok(generate_commit_message(&self.updates))
    }

    /// The commit was created.
    pub fn on_committed(&mut self, sha: String)
        requires
            old(self).phase == WorkflowPhase::Applied,
        ensures
            final(self).phase == WorkflowPhase::Committed,
            final(self).commit_sha matches Some(s) && s == sha,
            final(self).config == old(self).config,
            final(self).base_branch == old(self).base_branch,
            final(self).new_branch == old(self).new_branch,
            final(self).updates == old(self).updates,
    {
        self.commit_sha = Some(sha);
        self.phase = WorkflowPhase::Committed;
    }

    /// The refspec that pushes the run's branch.
    pub fn push_refspec(&self) -> (r: String)
        requires
            self.phase == WorkflowPhase::Committed,
            self.new_branch is Some,
        ensures
            r@ == refspec_of(self.new_branch.unwrap()@),
    {
        match &self.new_branch {
            Some(b) => refspec_for(b.as_str()),
            None => String::new(),
        }
    }

    /// The push finished.
    pub fn on_pushed(&mut self)
        requires
            old(self).phase == WorkflowPhase::Committed,
        ensures
            final(self).phase == WorkflowPhase::Pushed,
            final(self).config == old(self).config,
            final(self).base_branch == old(self).base_branch,
            final(self).new_branch == old(self).new_branch,
            final(self).updates == old(self).updates,
            final(self).commit_sha == old(self).commit_sha,
    {
        self.phase = WorkflowPhase::Pushed;
    }

    /// Prepares the provider's pull-request call for the pushed branch:
    /// the same request `build_pull_request` fixes, with this run's new
    /// branch as the head and the base branch as the target.
    pub fn pull_request(&self, date: &str) -> (r: Result<PrRequest, RecommenderError>)
        requires
            self.phase == WorkflowPhase::Pushed,
            self.new_branch is Some,
        ensures
            self.config.provider == GitProvider::Generic ==> (r matches Err(e) && e
                matches RecommenderError::ApplyError(m) && m@
                == "Automatic PR creation not supported for this Git provider. Please create PR manually."@),
            (self.config.provider != GitProvider::Generic && self.config.auth_token
                is None) ==> (r matches Err(e) && e matches RecommenderError::ApplyError(m)
                && m@ == "Authentication token required for creating pull requests"@),
            (self.config.provider != GitProvider::Generic && self.config.auth_token is Some
                && repo_owner_name_of(self.config.git_url@) is None) ==> (r matches Err(e)
                && e matches RecommenderError::ApplyError(m) && m@
                == "Could not parse owner/repo from URL: "@ + self.config.git_url@),
            (self.config.provider == GitProvider::Bitbucket && self.config.auth_token
                is Some && repo_owner_name_of(self.config.git_url@) is Some) ==> (r
                matches Ok(req) && req@ == PrRequestView {
                url: "https://api.bitbucket.org/2.0/repositories/"@ + repo_owner_name_of(
                    self.config.git_url@,
                ).unwrap().0 + "/"@ + repo_owner_name_of(self.config.git_url@).unwrap().1
                    + "/pullrequests"@,
                header_name: "Authorization"@,
                header_value: "Bearer "@ + self.config.auth_token.unwrap()@,
                accept: None,
                user_agent: "kubernetes-recommender"@,
                body: bitbucket_body_of(pr_title_of(date@), self.new_branch.unwrap()@,
                    self.base_branch@, pr_description_of(updates_view(self.updates@))),
            }),
            ((self.config.provider == GitProvider::GitHub || self.config.provider
                == GitProvider::Gitea) && self.config.auth_token is Some
                && repo_owner_name_of(self.config.git_url@) is Some) ==> match url_host_of(
                self.config.git_url@,
            ) {
                None => r matches Err(e) && e matches RecommenderError::ApplyError(m) && m@
                    == "Could not determine API base URL"@,
                Some(h) => r matches Ok(req) && req@ == PrRequestView {
                    url: api_base_of(self.config.provider, h).unwrap() + "/repos/"@
                        + repo_owner_name_of(self.config.git_url@).unwrap().0 + "/"@
                        + repo_owner_name_of(self.config.git_url@).unwrap().1 + "/pulls"@,
                    header_name: "Authorization"@,
                    header_value: "token "@ + self.config.auth_token.unwrap()@,
                    accept: if self.config.provider == GitProvider::GitHub {
                        Some("application/vnd.github.v3+json"@)
                    } else {
                        None
                    },
                    user_agent: "kubernetes-recommender"@,
                    body: pulls_body_of(pr_title_of(date@), self.new_branch.unwrap()@,
                        self.base_branch@, pr_description_of(updates_view(self.updates@))),
                },
            },
            (self.config.provider == GitProvider::GitLab && self.config.auth_token is Some
                && repo_owner_name_of(self.config.git_url@) is Some) ==> match url_host_of(
                self.config.git_url@,
            ) {
                None => r matches Err(e) && e matches RecommenderError::ApplyError(m) && m@
                    == "Could not determine API base URL"@,
                Some(h) => r matches Ok(req) && req.header_name@ == "PRIVATE-TOKEN"@
                    && req.header_value@ == self.config.auth_token.unwrap()@ && req.accept
                    is None && req.user_agent@ == "kubernetes-recommender"@ && req.body@
                    == merge_request_body_of(
                    pr_title_of(date@),
                    self.new_branch.unwrap()@,
                    self.base_branch@,
                    pr_description_of(updates_view(self.updates@)),
                ) && (vstd::utf8::is_ascii_chars(
                    repo_owner_name_of(self.config.git_url@).unwrap().0 + "/"@
                        + repo_owner_name_of(self.config.git_url@).unwrap().1,
                ) ==> req.url@ == api_base_of(GitProvider::GitLab, h).unwrap()
                    + "/projects/"@ + urlencoded(
                    repo_owner_name_of(self.config.git_url@).unwrap().0 + "/"@
                        + repo_owner_name_of(self.config.git_url@).unwrap().1,
                ) + "/merge_requests"@),
            },
    {
        match &self.new_branch {
            Some(b) => build_pull_request(&self.config, b.as_str(),
                self.base_branch.as_str(), &self.updates, date),
            None => Err(RecommenderError::ApplyError(String::from_str(
                "Repository not cloned",
            ))),
        }
    }

    /// Closes the run; the pull-request URL stays optional, since its
    /// failure is only a warning.
    pub fn finish(&mut self, pr_url: Option<String>) -> (r: Result<
        ApplyOutcome,
        RecommenderError,
    >)
        requires
            old(self).phase == WorkflowPhase::Pushed,
        ensures
            final(self).phase == WorkflowPhase::Completed,
            (old(self).new_branch is Some && old(self).commit_sha is Some) ==> (r
                matches Ok(o) && o.branch == old(self).new_branch.unwrap() && o.commit_sha
                == old(self).commit_sha.unwrap() && o.pr_url == pr_url),
            (old(self).new_branch is None || old(self).commit_sha is None) ==> r is Err,
    {
        self.phase = WorkflowPhase::Completed;
        match (&self.new_branch, &self.commit_sha) {
            (Some(b), Some(sha)) => Ok(ApplyOutcome {
                branch: b.clone(),
                commit_sha: sha.clone(),
                pr_url,
            }),
            _ => Err(RecommenderError::ApplyError(String::from_str(
                "Repository not cloned",
            ))),
        }
    }
}

} // verus!
