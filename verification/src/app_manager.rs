//! App records and the identifiers derived from their remote URL.

use crate::text::{
    ends_with, find, find_char, first_index, first_occurrence, last_segment,
    lemma_first_index_after, lemma_first_index_none, lemma_first_occurrence_after,
    lemma_ends_with_tail, lemma_first_occurrence_from, lemma_first_occurrence_without_first,
    lemma_last_segment_after, lemma_without_suffix_clean,
    lemma_occurs_at_char, lemma_replaced, lemma_without_suffix_added, replace, replaced,
    rfind_char, slice, to_chars, to_text, trim_end_matches, without_suffix,
};
use vstd::prelude::*;

verus! {

/// One managed application.
#[derive(Debug, PartialEq, Eq)]
pub struct App {
    /// Version-control remote, as `scheme://host/owner/repo` or
    /// `user@host:owner/repo`.
    pub repo: String,
    /// Branch to check out.
    pub branch: String,
    /// Shell command run once in the checkout at install time.
    pub install_command: String,
    /// Shell command that is the service's entry point.
    pub run_command: String,
    /// Whether the service starts at boot; absent counts as yes.
    pub enabled: Option<bool>,
}

/// The mathematical value of an [`App`].
pub struct AppView {
    pub repo: Seq<char>,
    pub branch: Seq<char>,
    pub install_command: Seq<char>,
    pub run_command: Seq<char>,
    pub enabled: Option<bool>,
}

impl View for App {
    type V = AppView;

    open spec fn view(&self) -> AppView {
        AppView {
            repo: self.repo@,
            branch: self.branch@,
            install_command: self.install_command@,
            run_command: self.run_command@,
            enabled: self.enabled,
        }
    }
}

impl Clone for App {
    fn clone(&self) -> (r: Self)
        ensures
            r@ == self@,
    {
        App {
            repo: self.repo.clone(),
            branch: self.branch.clone(),
            install_command: self.install_command.clone(),
            run_command: self.run_command.clone(),
            enabled: self.enabled,
        }
    }
}

/// The suffix that remotes may carry and identifiers never do: `.git`.
pub open spec fn git_suffix() -> Seq<char> {
    seq!['.', 'g', 'i', 't']
}

/// What parts scheme and host in a URL: `://`.
pub open spec fn scheme_separator() -> Seq<char> {
    seq![':', '/', '/']
}

/// The remote `repo` without its trailing `.git`.
pub open spec fn remote_url(repo: Seq<char>) -> Seq<char> {
    without_suffix(repo, git_suffix())
}

/// The path of a remote of the form `scheme://host/path`, given the index of
/// its `://`: what follows the first `/` after the host. Scheme, host and
/// path must not be empty.
pub open spec fn url_path(url: Seq<char>, sep: int) -> Option<Seq<char>> {
    let rest = url.skip(sep + 3);
    match first_index(rest, '/') {
        Some(slash) => if sep > 0 && slash > 0 && slash + 1 < rest.len() {
            Some(rest.skip(slash + 1))
        } else {
            None
        },
        None => None,
    }
}

/// The path of a remote of the form `user@host:path`: what follows the first
/// `:`. User, host and path must not be empty.
pub open spec fn scp_path(url: Seq<char>) -> Option<Seq<char>> {
    match first_index(url, ':') {
        Some(colon) => match first_index(url.take(colon), '@') {
            Some(at) => if at > 0 && at + 1 < colon && colon + 1 < url.len() {
                Some(url.skip(colon + 1))
            } else {
                None
            },
            None => None,
        },
        None => None,
    }
}

/// The canonical id of the remote `repo`: the path that follows the host,
/// without a trailing `.git`. A remote in neither of the two forms has none.
pub open spec fn canonical_id(repo: Seq<char>) -> Option<Seq<char>> {
    let url = remote_url(repo);
    match first_occurrence(url, scheme_separator()) {
        Some(sep) => url_path(url, sep),
        None => scp_path(url),
    }
}

/// The system id of the remote `repo`: its canonical id with every `/`
/// replaced by `-`.
pub open spec fn system_id(repo: Seq<char>) -> Option<Seq<char>> {
    match canonical_id(repo) {
        Some(id) => Some(replaced(id, '/', '-')),
        None => None,
    }
}

/// The checkout directory of the remote `repo`: its last path segment.
pub open spec fn folder_name(repo: Seq<char>) -> Seq<char> {
    last_segment(remote_url(repo), '/')
}

/// Whether `s` is a name: not empty, and without `/`, `:` and `@`.
pub open spec fn is_name(s: Seq<char>) -> bool {
    &&& s.len() > 0
    &&& forall|i: int| 0 <= i < s.len() ==> s[i] != '/' && s[i] != ':' && s[i] != '@'
}

/// The remote `scheme://host/owner/repo`.
pub open spec fn url_remote(
    scheme: Seq<char>,
    host: Seq<char>,
    owner: Seq<char>,
    repo: Seq<char>,
) -> Seq<char> {
    scheme + scheme_separator() + host + seq!['/'] + owner + seq!['/'] + repo
}

/// The remote `user@host:owner/repo`.
pub open spec fn scp_remote(user: Seq<char>, host: Seq<char>, owner: Seq<char>, repo: Seq<char>)
    -> Seq<char> {
    user + seq!['@'] + host + seq![':'] + owner + seq!['/'] + repo
}

/// A text that ends in `/` and a name does not end in `.git`, unless the
/// name does.
proof fn lemma_no_git_suffix(front: Seq<char>, repo: Seq<char>)
    requires
        is_name(repo),
        !ends_with(repo, git_suffix()),
    ensures
        !ends_with(front + seq!['/'] + repo, git_suffix()),
{
    let s = front + seq!['/'] + repo;
    let g = git_suffix();
    if ends_with(s, g) {
        let at = s.len() - 4;
        let window = s.subrange(at, at + 4);
        assert(window == g);
        if repo.len() >= 4 {
            assert(repo.subrange(repo.len() - 4, repo.len() as int) =~= window);
        } else {
            let slash = front.len() as int;
            assert(s[slash] == '/');
            assert(window[slash - at] == s[slash]);
            assert(g[slash - at] != '/');
        }
    }
}

/// The ids of a remote of the form `scheme://host/owner/repo`, with or
/// without `.git` at its end: the canonical id is `owner/repo`, the system
/// id `owner-repo`, and the checkout directory `repo`.
pub proof fn lemma_url_remote_ids(
    scheme: Seq<char>,
    host: Seq<char>,
    owner: Seq<char>,
    repo: Seq<char>,
)
    requires
        is_name(scheme),
        is_name(host),
        is_name(owner),
        is_name(repo),
        !ends_with(repo, git_suffix()),
    ensures
        canonical_id(url_remote(scheme, host, owner, repo)) == Some(owner + seq!['/'] + repo),
        canonical_id(url_remote(scheme, host, owner, repo) + git_suffix()) == Some(
            owner + seq!['/'] + repo,
        ),
        system_id(url_remote(scheme, host, owner, repo)) == Some(owner + seq!['-'] + repo),
        system_id(url_remote(scheme, host, owner, repo) + git_suffix()) == Some(
            owner + seq!['-'] + repo,
        ),
        folder_name(url_remote(scheme, host, owner, repo)) == repo,
        folder_name(url_remote(scheme, host, owner, repo) + git_suffix()) == repo,
{
    let url = url_remote(scheme, host, owner, repo);
    let sep = scheme_separator();
    let path = owner + seq!['/'] + repo;
    let front = scheme + sep + host + seq!['/'] + owner;
    assert(url =~= front + seq!['/'] + repo);
    lemma_no_git_suffix(front, repo);
    lemma_without_suffix_added(url, git_suffix());
    assert(remote_url(url) == url);
    assert(remote_url(url + git_suffix()) == url);
    // The scheme ends at the first `://`.
    let after = host + seq!['/'] + path;
    assert(url =~= scheme + sep + after);
    lemma_first_occurrence_after(scheme, sep, after);
    let rest = url.skip(scheme.len() as int + 3);
    assert(rest =~= host + seq!['/'] + path);
    // The host ends at the first `/` after it.
    lemma_first_index_after(host, '/', path);
    assert(rest.skip(host.len() as int + 1) =~= path);
    assert(url_path(url, scheme.len() as int) == Some(path));
    lemma_path_ids(path, owner, repo);
    lemma_last_segment_after(front, '/', repo);
}

/// The ids of a remote of the form `user@host:owner/repo`, with or without
/// `.git` at its end: the canonical id is `owner/repo`, the system id
/// `owner-repo`, and the checkout directory `repo`.
pub proof fn lemma_scp_remote_ids(
    user: Seq<char>,
    host: Seq<char>,
    owner: Seq<char>,
    repo: Seq<char>,
)
    requires
        is_name(user),
        is_name(host),
        is_name(owner),
        is_name(repo),
        !ends_with(repo, git_suffix()),
    ensures
        canonical_id(scp_remote(user, host, owner, repo)) == Some(owner + seq!['/'] + repo),
        canonical_id(scp_remote(user, host, owner, repo) + git_suffix()) == Some(
            owner + seq!['/'] + repo,
        ),
        system_id(scp_remote(user, host, owner, repo)) == Some(owner + seq!['-'] + repo),
        system_id(scp_remote(user, host, owner, repo) + git_suffix()) == Some(
            owner + seq!['-'] + repo,
        ),
        folder_name(scp_remote(user, host, owner, repo)) == repo,
        folder_name(scp_remote(user, host, owner, repo) + git_suffix()) == repo,
{
    let url = scp_remote(user, host, owner, repo);
    let sep = scheme_separator();
    let path = owner + seq!['/'] + repo;
    let head = user + seq!['@'] + host;
    let front = head + seq![':'] + owner;
    assert(url =~= front + seq!['/'] + repo);
    lemma_no_git_suffix(front, repo);
    lemma_without_suffix_added(url, git_suffix());
    assert(remote_url(url) == url);
    assert(remote_url(url + git_suffix()) == url);
    // The only `:` stands before the owner, which does not begin with `/`.
    let colon = head.len() as int;
    assert(url =~= head + seq![':'] + path);
    lemma_first_occurrence_from(url, sep, 0);
    if let Some(k) = first_occurrence(url, sep) {
        let window = url.subrange(k, k + 3);
        assert(window[0] == url[k]);
        assert(window[1] == url[k + 1]);
        assert(sep[0] == ':' && sep[1] == '/');
        if k < user.len() {
            assert(url[k] == user[k]);
        } else if k == user.len() {
            assert(url[k] == '@');
        } else if k < colon {
            assert(url[k] == host[k - user.len() - 1]);
        } else if k == colon {
            assert(url[k + 1] == owner[0]);
        } else {
            assert(url[k] == path[k - colon - 1]);
            if k - colon - 1 < owner.len() {
                assert(path[k - colon - 1] == owner[k - colon - 1]);
            } else if k - colon - 1 > owner.len() {
                assert(path[k - colon - 1] == repo[k - colon - 2 - owner.len()]);
            }
        }
        assert(false);
    }
    assert forall|i: int| 0 <= i < head.len() implies head[i] != ':' by {
        if i < user.len() {
            assert(head[i] == user[i]);
        } else if i > user.len() {
            assert(head[i] == host[i - user.len() - 1]);
        }
    }
    lemma_first_index_after(head, ':', path);
    assert(url.take(colon) =~= head);
    assert(head =~= user + seq!['@'] + Seq::<char>::empty() + host) by {
        assert(seq!['@'] + Seq::<char>::empty() =~= seq!['@']);
    }
    lemma_first_index_after(user, '@', host);
    assert(user + seq!['@'] + host =~= head);
    assert(url.skip(colon + 1) =~= path);
    assert(scp_path(url) == Some(path));
    lemma_path_ids(path, owner, repo);
    lemma_last_segment_after(front, '/', repo);
}

/// The path `owner/repo` becomes `owner-repo` when `/` is replaced by `-`.
proof fn lemma_path_ids(path: Seq<char>, owner: Seq<char>, repo: Seq<char>)
    requires
        is_name(owner),
        is_name(repo),
        path == owner + seq!['/'] + repo,
    ensures
        replaced(path, '/', '-') == owner + seq!['-'] + repo,
{
    let dashed = owner + seq!['-'] + repo;
    assert forall|i: int| 0 <= i < path.len() implies replaced(path, '/', '-')[i] == dashed[i] by {
        if i < owner.len() {
            assert(path[i] == owner[i]);
        } else if i > owner.len() {
            assert(path[i] == repo[i - owner.len() - 1]);
        }
    }
    assert(replaced(path, '/', '-') =~= dashed);
}

/// A remote without `:` is in neither form and has no id.
pub proof fn lemma_remote_without_colon(repo: Seq<char>)
    requires
        forall|i: int| 0 <= i < remote_url(repo).len() ==> remote_url(repo)[i] != ':',
    ensures
        canonical_id(repo) is None,
        system_id(repo) is None,
{
    let url = remote_url(repo);
    lemma_first_occurrence_without_first(url, scheme_separator());
    lemma_first_index_none(url, ':');
}

/// A remote has a system id exactly when it has a canonical id. The system
/// id is the canonical id with every `/` replaced by `-`: it is as long,
/// has `-` wherever the canonical id has `/`, the same character everywhere
/// else, and no `/` at all.
pub proof fn lemma_system_id(repo: Seq<char>)
    ensures
        system_id(repo) is Some <==> canonical_id(repo) is Some,
        canonical_id(repo) is Some ==> ({
            let id = canonical_id(repo)->0;
            let sid = system_id(repo)->0;
            &&& sid.len() == id.len()
            &&& forall|i: int|
                0 <= i < id.len() ==> #[trigger] sid[i] == if id[i] == '/' {
                    '-'
                } else {
                    id[i]
                }
            &&& forall|i: int| 0 <= i < sid.len() ==> #[trigger] sid[i] != '/'
        }),
{
    if let Some(id) = canonical_id(repo) {
        lemma_replaced(id, '/', '-');
    }
}

/// What has a canonical id is in one of the two forms. The id is not empty,
/// does not end in `.git`, and ends the remote, once `.git` is taken off;
/// before it stands either a scheme, `://`, a host without `/`, and `/`, or
/// a user, `@`, a host, and `:`, with scheme, user and host not empty.
pub proof fn lemma_canonical_id_form(repo: Seq<char>)
    requires
        canonical_id(repo) is Some,
    ensures
        ({
            let url = remote_url(repo);
            let id = canonical_id(repo)->0;
            &&& id.len() > 0
            &&& !ends_with(id, git_suffix())
            &&& {
                ||| exists|scheme: Seq<char>, host: Seq<char>|
                    #![trigger scheme + scheme_separator() + host]
                    scheme.len() > 0 && host.len() > 0 && !host.contains('/') && url == scheme
                        + scheme_separator() + host + seq!['/'] + id
                ||| exists|user: Seq<char>, host: Seq<char>|
                    #![trigger user + seq!['@'] + host]
                    user.len() > 0 && host.len() > 0 && !user.contains('@') && url == user
                        + seq!['@'] + host + seq![':'] + id
            }
        }),
{
    let url = remote_url(repo);
    let sep = scheme_separator();
    let id = canonical_id(repo)->0;
    lemma_first_occurrence_from(url, sep, 0);
    lemma_without_suffix_clean(repo, git_suffix());
    match first_occurrence(url, sep) {
        Some(at) => {
            let rest = url.skip(at + 3);
            lemma_first_occurrence_from(rest, seq!['/'], 0);
            let slash = first_index(rest, '/')->0;
            let scheme = url.take(at);
            let host = rest.take(slash);
            assert(url.subrange(at, at + 3) == sep);
            assert forall|i: int| 0 <= i < host.len() implies host[i] != '/' by {
                lemma_occurs_at_char(rest, '/', i);
            }
            lemma_occurs_at_char(rest, '/', slash);
            assert(id =~= url.skip(at + 3 + slash + 1));
            if ends_with(id, git_suffix()) {
                lemma_ends_with_tail(url, at + 3 + slash + 1, git_suffix());
            }
            assert(url =~= scheme + sep + host + seq!['/'] + id) by {
                let made = scheme + sep + host + seq!['/'] + id;
                assert(made.len() == url.len());
                assert forall|i: int| 0 <= i < url.len() implies url[i] == made[i] by {
                    if at <= i < at + 3 {
                        assert(url.subrange(at, at + 3)[i - at] == url[i]);
                    } else if i >= at + 3 {
                        assert(rest[i - at - 3] == url[i]);
                    }
                }
            }
        },
        None => {
            lemma_first_occurrence_from(url, seq![':'], 0);
            let colon = first_index(url, ':')->0;
            let head = url.take(colon);
            lemma_first_occurrence_from(head, seq!['@'], 0);
            let at = first_index(head, '@')->0;
            let user = head.take(at);
            let host = head.skip(at + 1);
            lemma_occurs_at_char(url, ':', colon);
            lemma_occurs_at_char(head, '@', at);
            assert forall|i: int| 0 <= i < user.len() implies user[i] != '@' by {
                lemma_occurs_at_char(head, '@', i);
            }
            if ends_with(id, git_suffix()) {
                lemma_ends_with_tail(url, colon + 1, git_suffix());
            }
            assert(url =~= user + seq!['@'] + host + seq![':'] + id);
        },
    }
}

/// The canonical id of `repo`, as characters.
pub fn canonical_id_chars(repo: &str) -> (r: Option<Vec<char>>)
    ensures
        match r {
            Some(id) => canonical_id(repo@) == Some(id@),
            None => canonical_id(repo@) is None,
        },
{
    let chars = to_chars(repo);
    let suffix = vec!['.', 'g', 'i', 't'];
    let separator = vec![':', '/', '/'];
    assert(suffix@ =~= git_suffix());
    assert(separator@ =~= scheme_separator());
    let url = trim_end_matches(&chars, &suffix);
    match find(&url, &separator) {
        Some(sep) => {
            let rest = slice(&url, sep + 3, url.len());
            match find_char(&rest, '/') {
                Some(slash) => {
                    if sep > 0 && slash > 0 && slash + 1 < rest.len() {
                        Some(slice(&rest, slash + 1, rest.len()))
                    } else {
                        None
                    }
                },
                None => None,
            }
        },
        None => {
            match find_char(&url, ':') {
                Some(colon) => {
                    let head = slice(&url, 0, colon);
                    match find_char(&head, '@') {
                        Some(at) => {
                            if at > 0 && at + 1 < colon && colon + 1 < url.len() {
                                Some(slice(&url, colon + 1, url.len()))
                            } else {
                                None
                            }
                        },
                        None => None,
                    }
                },
                None => None,
            }
        },
    }
}

impl App {
    /// The canonical id: the registry's key for this app.
    pub fn id(&self) -> (r: Option<String>)
        ensures
            match r {
                Some(id) => canonical_id(self.repo@) == Some(id@),
                None => canonical_id(self.repo@) is None,
            },
    {
        match canonical_id_chars(self.repo.as_str()) {
            Some(id) => Some(to_text(&id)),
            None => None,
        }
    }

    /// The system id: the name of the app's service unit.
    pub fn id_system(&self) -> (r: Option<String>)
        ensures
            match r {
                Some(id) => system_id(self.repo@) == Some(id@),
                None => system_id(self.repo@) is None,
            },
    {
        match canonical_id_chars(self.repo.as_str()) {
            Some(id) => Some(to_text(&replace(&id, '/', '-'))),
            None => None,
        }
    }

    /// The name of the checkout directory.
    pub fn repo_folder_name(&self) -> (r: String)
        ensures
            r@ == folder_name(self.repo@),
    {
        let chars = to_chars(self.repo.as_str());
        let suffix = vec!['.', 'g', 'i', 't'];
        assert(suffix@ =~= git_suffix());
        let url = trim_end_matches(&chars, &suffix);
        match rfind_char(&url, '/') {
            Some(i) => to_text(&slice(&url, i + 1, url.len())),
            None => to_text(&url),
        }
    }

    /// Whether the service is to start at boot.
    pub fn is_enabled(&self) -> (b: bool)
        ensures
            b == (self.enabled != Some(false)),
    {
        match self.enabled {
            Some(flag) => flag,
            None => true,
        }
    }
}

} // verus!
