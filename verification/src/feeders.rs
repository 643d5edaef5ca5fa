//! Data providers for fields that suggest completions.
//!
//! A feeder answers "which candidates fit this text?" one page at a time.
//! Two feeders are here: a list of items, searched for the text, and
//! `DirItems`, which turns the text into a glob pattern and lists what the
//! file system holds under it.

use vstd::prelude::*;
use crate::disk::{canonical, is_directory};
use crate::text::{
    chars_of, contains_text, contains_uppercase, has_infix, has_uppercase, lowercase_of,
    string_of, texts, to_lowercase,
};

verus! {

/// The page of `all` that starts `position` items in and holds at most
/// `limit` items. Past the end the page is short, or empty.
pub open spec fn page<T>(all: Seq<T>, position: int, limit: int) -> Seq<T>
    recommends
        0 <= position,
        0 <= limit,
{
    let from = if position < all.len() { position } else { all.len() as int };
    let to = if position + limit < all.len() { position + limit } else { all.len() as int };
    all.subrange(from, to)
}

/// A page holds exactly the items `position`, `position + 1`, ... of the
/// list, in the list's order, and stops at `limit` items or at the list's
/// end.
pub proof fn lemma_page_items<T>(all: Seq<T>, position: int, limit: int)
    requires
        0 <= position,
        0 <= limit,
    ensures
        page(all, position, limit).len() <= limit,
        page(all, position, limit).len() == if position + limit <= all.len() {
            limit
        } else if position <= all.len() {
            all.len() - position
        } else {
            0
        },
        forall|i: int|
            0 <= i < page(all, position, limit).len() ==> #[trigger] page(all, position, limit)[i]
                == all[position + i],
{
}

/// Consecutive pages leave no gap and repeat nothing: a page followed by the
/// page that starts where it stops is the one page of both sizes together.
pub proof fn lemma_pages_join<T>(all: Seq<T>, position: int, first: int, second: int)
    requires
        0 <= position,
        0 <= first,
        0 <= second,
    ensures
        page(all, position, first) + page(all, position + first, second) == page(
            all,
            position,
            first + second,
        ),
{
    assert(page(all, position, first) + page(all, position + first, second) =~= page(
        all,
        position,
        first + second,
    ));
}

/// The page that starts at the first item and is as long as the list is the
/// whole list.
pub proof fn lemma_page_of_everything<T>(all: Seq<T>, limit: int)
    requires
        all.len() <= limit,
    ensures
        page(all, 0, limit) == all,
{
    assert(page(all, 0, limit) =~= all);
}

/// Paging commutes with reading the texts of the strings.
pub proof fn lemma_page_texts(all: Seq<String>, position: int, limit: int)
    requires
        0 <= position,
        0 <= limit,
    ensures
        texts(page(all, position, limit)) == page(texts(all), position, limit),
{
    assert(texts(page(all, position, limit)) =~= page(texts(all), position, limit));
}

/// Skips `position` items of `all`, then takes up to `limit`.
pub fn paginate(all: &Vec<String>, position: usize, limit: usize) -> (found: Vec<String>)
    ensures
        found@ == page(all@, position as int, limit as int),
        texts(found@) == page(texts(all@), position as int, limit as int),
{
    let n = all.len();
    let from: usize = if position < n { position } else { n };
    let to: usize = if limit < n - from { from + limit } else { n };
    let mut found: Vec<String> = Vec::new();
    let mut i: usize = from;
    while i < to
        invariant
            from <= i <= to <= n,
            n == all.len(),
            found@ == all@.subrange(from as int, i as int),
        decreases to - i,
    {
        found.push(all[i].clone());
        assert(all@.subrange(from as int, i + 1) == all@.subrange(from as int, i as int).push(
            all@[i as int],
        ));
        i += 1;
    }
    proof {
        lemma_page_texts(all@, position as int, limit as int);
    }
    found
}

/// Makes data queryable.
pub trait Feeder {
    /// Whether `found` is an answer of this feeder to the query for `text`
    /// that skips `position` candidates and takes up to `items_count`. A
    /// feeder that looks at nothing but itself has one answer to a query; a
    /// feeder that looks at the file system has those that the file system
    /// can bring about. Of a feeder that says no more, every list that is
    /// no longer than was asked for is an answer.
    open spec fn answers(
        &self,
        text: Seq<char>,
        position: nat,
        items_count: nat,
        found: Seq<Seq<char>>,
    ) -> bool {
        found.len() <= items_count
    }

    /// Returns the data that fits `text`: it skips `position` candidates and
    /// returns at most `items_count` of those that follow.
    fn query(&self, text: &str, position: usize, items_count: usize) -> (found: Vec<String>)
        ensures
            self.answers(text@, position as nat, items_count as nat, texts(found@)),
            found.len() <= items_count,
    ;
}

/// The items that hold `text` when case is set aside, in the order of the
/// list: those whose lowercase form holds the lowercase form of the text. A
/// capital in the text has no meaning of its own here.
pub open spec fn matching(items: Seq<Seq<char>>, text: Seq<char>) -> Seq<Seq<char>> {
    items.filter(|item: Seq<char>| has_infix(lowercase_of(item), lowercase_of(text)))
}

/// The items of `items` that fit `text`, all of them.
pub fn list_matches(items: &Vec<String>, text: &str) -> (all: Vec<String>)
    ensures
        texts(all@) == matching(texts(items@), text@),
{
    let mut all: Vec<String> = Vec::new();
    let mut i: usize = 0;
    let wanted = to_lowercase(text);
    proof {
        reveal(Seq::filter);
        assert(texts(items@.take(0)) =~= Seq::<Seq<char>>::empty());
    }
    while i < items.len()
        invariant
            i <= items.len(),
            wanted@ == lowercase_of(text@),
            texts(all@) == matching(texts(items@.take(i as int)), text@),
        decreases items.len() - i,
    {
        let lower = to_lowercase(items[i].as_str());
        let fits = contains_text(lower.as_str(), wanted.as_str());
        proof {
            let pred = |item: Seq<char>| has_infix(lowercase_of(item), lowercase_of(text@));
            let before = texts(items@.take(i as int));
            assert(items@.take(i + 1) == items@.take(i as int).push(items@[i as int]));
            assert(texts(items@.take(i + 1)) =~= before.push(items@[i as int]@));
            before.lemma_filter_push(items@[i as int]@, pred);
        }
        if fits {
            let ghost shown = texts(all@);
            all.push(items[i].clone());
            assert(texts(all@) =~= shown.push(items@[i as int]@));
        }
        i += 1;
    }
    assert(items@.take(items.len() as int) == items@);
    all
}

impl<F: Feeder + ?Sized> Feeder for std::rc::Rc<F> {
    /// The answers of the shared feeder.
    open spec fn answers(
        &self,
        text: Seq<char>,
        position: nat,
        items_count: nat,
        found: Seq<Seq<char>>,
    ) -> bool {
        (**self).answers(text, position, items_count, found)
    }

    /// What the shared feeder answers.
    fn query(&self, text: &str, position: usize, items_count: usize) -> (found: Vec<String>) {
        (**self).query(text, position, items_count)
    }
}

impl Feeder for Vec<String> {
    /// The one answer: the page of the items that hold `text` when case is
    /// set aside.
    open spec fn answers(
        &self,
        text: Seq<char>,
        position: nat,
        items_count: nat,
        found: Seq<Seq<char>>,
    ) -> bool {
        found == page(matching(texts(self@), text), position as int, items_count as int)
    }

    /// The page of the items that hold `text` when case is set aside.
    fn query(&self, text: &str, position: usize, items_count: usize) -> (found: Vec<String>)
        ensures
            texts(found@) == page(
                matching(texts(self@), text@),
                position as int,
                items_count as int,
            ),
    {
        let all = list_matches(self, text);
        let found = paginate(&all, position, items_count);
        proof {
            lemma_page_items(all@, position as int, items_count as int);
        }
        found
    }
}

/// Where the last component of `path` starts: just after its last
/// separator, or at 0 where it has none.
pub open spec fn component_start(path: Seq<char>) -> int
    decreases path.len(),
{
    if path.len() == 0 {
        0
    } else if path.last() == '/' {
        path.len() as int
    } else {
        component_start(path.drop_last())
    }
}

/// The glob pattern that stands for the partial path `path`. Only the last
/// component changes. An empty last component (the path is empty or ends in
/// a separator) becomes `*`. A last component without a wildcard is put
/// between two: `name` becomes `*name*`. One that holds a wildcard stays.
pub open spec fn glob_of(path: Seq<char>) -> Seq<char> {
    let start = component_start(path);
    let name = path.skip(start);
    if name.len() == 0 {
        path.push('*')
    } else if name.contains('*') {
        path
    } else {
        path.take(start).push('*') + name.push('*')
    }
}

/// `component_start` is the one index that is 0 or follows a separator and
/// has no separator at or after it.
pub proof fn lemma_component_start(path: Seq<char>, start: int)
    requires
        0 <= start <= path.len(),
        start == 0 || path[start - 1] == '/',
        forall|j: int| start <= j < path.len() ==> path[j] != '/',
    ensures
        component_start(path) == start,
    decreases path.len(),
{
    if path.len() > 0 && path.last() != '/' {
        lemma_component_start(path.drop_last(), start);
    }
}

/// The last component starts inside the path, after a separator or at 0,
/// and holds no separator.
pub proof fn lemma_component_start_bounds(path: Seq<char>)
    ensures
        0 <= component_start(path) <= path.len(),
        component_start(path) == 0 || path[component_start(path) - 1] == '/',
        forall|j: int| component_start(path) <= j < path.len() ==> path[j] != '/',
    decreases path.len(),
{
    if path.len() > 0 && path.last() != '/' {
        let front = path.drop_last();
        lemma_component_start_bounds(front);
        assert forall|j: int| component_start(path) <= j < path.len() implies path[j] != '/' by {
            if j < front.len() {
                assert(front[j] == path[j]);
            }
        }
    }
}

/// The last component of a glob pattern made by `glob_of` starts where that
/// of the path starts, and holds a wildcard.
pub proof fn lemma_glob_has_wildcard(path: Seq<char>)
    ensures
        glob_of(path).skip(component_start(glob_of(path))).contains('*'),
        component_start(glob_of(path)) == component_start(path),
{
    lemma_component_start_bounds(path);
    let start = component_start(path);
    let name = path.skip(start);
    let made = glob_of(path);
    if name.len() == 0 {
        lemma_component_start(made, start);
        assert(made.skip(start)[0] == '*');
    } else if name.contains('*') {
    } else {
        assert(made.len() == path.len() + 2);
        assert(made[start] == '*');
        assert forall|j: int| start <= j < made.len() implies made[j] != '/' by {
            if start < j < made.len() - 1 {
                assert(made[j] == path[j - 1]);
            }
        }
        assert(start > 0 ==> made[start - 1] == path[start - 1]);
        lemma_component_start(made, start);
        assert(made.skip(start)[0] == '*');
    }
}

/// A path whose last component holds a wildcard is its own glob pattern.
pub proof fn lemma_glob_keeps_wildcard(path: Seq<char>)
    requires
        path.skip(component_start(path)).contains('*'),
    ensures
        glob_of(path) == path,
{
}

/// Making a glob pattern of a glob pattern changes nothing.
pub proof fn lemma_glob_idempotent(path: Seq<char>)
    ensures
        glob_of(glob_of(path)) == glob_of(path),
{
    lemma_glob_has_wildcard(path);
    lemma_glob_keeps_wildcard(glob_of(path));
}

/// Adds a star to the last component of `path`.
pub fn add_glob(path: &str) -> (pattern: String)
    ensures
        pattern@ == glob_of(path@),
{
    let chars = chars_of(path);
    let n = chars.len();
    let mut start: usize = n;
    let mut wildcard = false;
    while start > 0 && chars[start - 1] != '/'
        invariant
            start <= n,
            n == chars.len(),
            forall|j: int| start <= j < n ==> chars@[j] != '/',
            wildcard == chars@.skip(start as int).contains('*'),
        decreases start,
    {
        start -= 1;
        proof {
            let tail = chars@.skip(start as int);
            let rest = chars@.skip(start + 1);
            assert(tail[0] == chars@[start as int]);
            assert forall|k: int| 0 <= k < rest.len() implies rest[k] == tail[k + 1] by {}
            if rest.contains('*') {
                let k = choose|k: int| 0 <= k < rest.len() && rest[k] == '*';
                assert(tail[k + 1] == '*');
            }
            if tail.contains('*') && chars@[start as int] != '*' {
                let k = choose|k: int| 0 <= k < tail.len() && tail[k] == '*';
                assert(rest[k - 1] == '*');
            }
        }
        if chars[start] == '*' {
            wildcard = true;
        }
    }
    proof {
        lemma_component_start(chars@, start as int);
    }
    let mut made: Vec<char> = Vec::new();
    if start == n {
        copy_into(&mut made, &chars, 0, n);
        made.push('*');
        assert(made@ =~= chars@.push('*'));
    } else if wildcard {
        copy_into(&mut made, &chars, 0, n);
        assert(made@ =~= chars@);
    } else {
        copy_into(&mut made, &chars, 0, start);
        made.push('*');
        copy_into(&mut made, &chars, start, n);
        made.push('*');
        assert(made@ =~= chars@.take(start as int).push('*') + chars@.skip(start as int).push(
            '*',
        ));
    }
    string_of(&made)
}

/// Appends the characters `from[begin..end]` to `to`.
fn copy_into(to: &mut Vec<char>, from: &Vec<char>, begin: usize, end: usize)
    requires
        begin <= end <= from.len(),
    ensures
        final(to)@ == old(to)@ + from@.subrange(begin as int, end as int),
{
    let mut i: usize = begin;
    while i < end
        invariant
            begin <= i <= end <= from.len(),
            to@ == old(to)@ + from@.subrange(begin as int, i as int),
        decreases end - i,
    {
        to.push(from[i]);
        assert(from@.subrange(begin as int, i + 1) == from@.subrange(begin as int, i as int).push(
            from@[i as int],
        ));
        i += 1;
    }
}

/// The user's home directory as `dirs::home_dir` reports it, where it is
/// known and can be written as text. It is read from the environment, so
/// nothing is promised of it.
#[verifier::external_body]
pub(crate) fn home_dir() -> (home: Option<String>) {
    dirs::home_dir().and_then(|path| path.to_str().map(|s| s.to_string()))
}

/// What `glob::glob_with` makes of a pattern: whether it takes it, or
/// refuses it as malformed. It refuses stars and brackets that it cannot
/// read, such as `***`, `a**` or a `[` that nothing closes.
pub uninterp spec fn glob_accepts(pattern: Seq<char>) -> bool;

/// What `glob::Pattern::matches_with` makes of a pattern and a text under
/// the three options: whether the pattern matches the whole text, or `None`
/// where `glob::Pattern::new` refuses the pattern.
pub uninterp spec fn glob_matches(
    pattern: Seq<char>,
    text: Seq<char>,
    case_sensitive: bool,
    require_literal_separator: bool,
    require_literal_leading_dot: bool,
) -> Option<bool>;

/// `glob::glob_with`: every item that the pattern yields on this file
/// system, in the order in which the walk yields it, each match written
/// out as text and each unreadable directory as `None`. The whole is `None`
/// exactly where the glob refuses the pattern. What the items are depends
/// on what is on disk, so nothing is promised of them. With
/// `require_literal_leading_dot` set the walk stops the program on a file
/// name that is not valid UTF-8, so the option has to be unset; without it
/// the walk passes such a name over.
#[verifier::external_body]
pub(crate) fn glob_paths(
    pattern: &str,
    case_sensitive: bool,
    require_literal_separator: bool,
    require_literal_leading_dot: bool,
) -> (paths: Option<Vec<Option<String>>>)
    requires
        !require_literal_leading_dot,
    ensures
        paths is Some == glob_accepts(pattern@),
{
    let options = glob::MatchOptions {
        case_sensitive,
        require_literal_separator,
        require_literal_leading_dot,
    };
    match glob::glob_with(pattern, options) {
        Ok(paths) => Some(paths.map(|p| p.ok().map(|p| format!("{}", p.display()))).collect()),
        Err(_) => None,
    }
}

/// `glob::Pattern::new`, then `Pattern::matches_with`: whether the pattern
/// matches the whole of `text` under the options, or `None` where the
/// pattern is refused. The answer depends on the arguments alone and is
/// the one that `glob_matches` names.
#[verifier::external_body]
pub(crate) fn pattern_matches(
    pattern: &str,
    text: &str,
    case_sensitive: bool,
    require_literal_separator: bool,
    require_literal_leading_dot: bool,
) -> (matched: Option<bool>)
    ensures
        matched == glob_matches(
            pattern@,
            text@,
            case_sensitive,
            require_literal_separator,
            require_literal_leading_dot,
        ),
{
    let options = glob::MatchOptions {
        case_sensitive,
        require_literal_separator,
        require_literal_leading_dot,
    };
    match glob::Pattern::new(pattern) {
        Ok(compiled) => Some(compiled.matches_with(text, options)),
        Err(_) => None,
    }
}

/// `text` with the home directory in place of each `~`.
pub open spec fn with_home(text: Seq<char>, home: Seq<char>) -> Seq<char>
    decreases text.len(),
{
    if text.len() == 0 {
        text
    } else if text.last() == '~' {
        with_home(text.drop_last(), home) + home
    } else {
        with_home(text.drop_last(), home).push(text.last())
    }
}

/// Whether the text asks for the home directory: it starts with `~`.
pub open spec fn wants_home(text: Seq<char>) -> bool {
    text.len() > 0 && text[0] == '~'
}

/// The path that the typed `text` stands for: the current directory for an
/// empty text, the text with the home directory in place of `~` where it
/// starts with `~`, and else the text itself. There is none where the home
/// directory is asked for and not known.
pub open spec fn root_of(text: Seq<char>, home: Option<Seq<char>>) -> Option<Seq<char>> {
    if text.len() == 0 {
        Some(seq!['.', '/'])
    } else if wants_home(text) {
        match home {
            Some(h) => Some(with_home(text, h)),
            None => None,
        }
    } else {
        Some(text)
    }
}

/// The glob pattern that the typed `text` stands for.
pub open spec fn pattern_of(text: Seq<char>, home: Option<Seq<char>>) -> Option<Seq<char>> {
    match root_of(text, home) {
        Some(root) => Some(glob_of(root)),
        None => None,
    }
}

/// Whether the typed text starts with `~`.
pub fn starts_with_home(text: &str) -> (wanted: bool)
    ensures
        wanted == wants_home(text@),
{
    let chars = chars_of(text);
    chars.len() > 0 && chars[0] == '~'
}

/// The glob pattern for the typed `text`, with `home` as the home
/// directory.
pub fn glob_pattern(text: &str, home: Option<&str>) -> (pattern: Option<String>)
    ensures
        pattern is Some == pattern_of(text@, view_of(home)) is Some,
        pattern matches Some(p) ==> Some(p@) == pattern_of(text@, view_of(home)),
{
    let chars = chars_of(text);
    if chars.len() == 0 {
        let mut root: Vec<char> = Vec::new();
        root.push('.');
        root.push('/');
        assert(root@ =~= seq!['.', '/']);
        let root = string_of(&root);
        Some(add_glob(root.as_str()))
    } else if chars[0] == '~' {
        match home {
            None => None,
            Some(h) => {
                let h = chars_of(h);
                let mut root: Vec<char> = Vec::new();
                let mut i: usize = 0;
                while i < chars.len()
                    invariant
                        i <= chars.len(),
                        root@ == with_home(chars@.take(i as int), h@),
                    decreases chars.len() - i,
                {
                    assert(chars@.take(i + 1).drop_last() == chars@.take(i as int));
                    if chars[i] == '~' {
                        copy_into(&mut root, &h, 0, h.len());
                        assert(h@.subrange(0, h.len() as int) == h@);
                    } else {
                        root.push(chars[i]);
                    }
                    i += 1;
                }
                assert(chars@.take(chars.len() as int) == chars@);
                let root = string_of(&root);
                Some(add_glob(root.as_str()))
            },
        }
    } else {
        Some(add_glob(text))
    }
}

/// What is asked of the glob for a typed text.
#[derive(Debug)]
pub struct GlobRequest {
    /// The glob pattern.
    pub pattern: String,
    /// Whether upper case and lower case are told apart.
    pub case_sensitive: bool,
    /// Whether a wildcard is kept from matching a separator. The glob's
    /// walk matches one name at a time and goes on as if this were set,
    /// whatever is handed over.
    pub require_literal_separator: bool,
    /// Whether a wildcard is kept from matching the dot at the start of a
    /// name, so that a hidden entry is found only where its dot is typed.
    pub require_literal_leading_dot: bool,
}

/// What a `GlobRequest` holds.
pub struct GlobRequestView {
    pub pattern: Seq<char>,
    pub case_sensitive: bool,
    pub require_literal_separator: bool,
    pub require_literal_leading_dot: bool,
}

impl View for GlobRequest {
    type V = GlobRequestView;

    open spec fn view(&self) -> GlobRequestView {
        GlobRequestView {
            pattern: self.pattern@,
            case_sensitive: self.case_sensitive,
            require_literal_separator: self.require_literal_separator,
            require_literal_leading_dot: self.require_literal_leading_dot,
        }
    }
}

/// What is asked of the glob for the typed `text`: the pattern that the
/// text stands for; case told apart exactly where the text holds an
/// uppercase character; a wildcard not kept from a separator; and a
/// wildcard kept from the dot at the start of a name. Nothing is asked
/// where the text has no pattern.
pub open spec fn request_of(text: Seq<char>, home: Option<Seq<char>>) -> Option<GlobRequestView> {
    match pattern_of(text, home) {
        Some(pattern) => Some(
            GlobRequestView {
                pattern,
                case_sensitive: has_uppercase(text),
                require_literal_separator: false,
                require_literal_leading_dot: true,
            },
        ),
        None => None,
    }
}

/// A query tells upper case from lower case exactly where the typed text
/// holds an uppercase character: typing one capital asks for the exact
/// case, and a text without any is matched whatever the case of an entry.
pub proof fn lemma_case_follows_the_text(text: Seq<char>, home: Option<Seq<char>>)
    requires
        request_of(text, home) is Some,
    ensures
        request_of(text, home)->0.case_sensitive == has_uppercase(text),
        request_of(text, home)->0.require_literal_leading_dot,
        !request_of(text, home)->0.require_literal_separator,
{
}

/// What is asked of the glob for the typed `text`, with `home` as the home
/// directory.
pub fn glob_request(text: &str, home: Option<&str>) -> (request: Option<GlobRequest>)
    ensures
        request is Some == request_of(text@, view_of(home)) is Some,
        request matches Some(r) ==> Some(r@) == request_of(text@, view_of(home)),
{
    match glob_pattern(text, home) {
        Some(pattern) => Some(
            GlobRequest {
                pattern,
                case_sensitive: contains_uppercase(text),
                require_literal_separator: false,
                require_literal_leading_dot: true,
            },
        ),
        None => None,
    }
}

/// The text of an optional string.
pub open spec fn view_of(s: Option<&str>) -> Option<Seq<char>> {
    match s {
        Some(s) => Some(s@),
        None => None,
    }
}

/// Whether a component of `s` starts at index `i`: at the start of the
/// text, or just after a separator.
pub open spec fn component_starts(s: Seq<char>, i: int) -> bool {
    0 <= i <= s.len() && (i == 0 || s[i - 1] == '/')
}

/// Where the component of `s` that starts at `i` ends: at the next
/// separator, or at the end of the text.
pub open spec fn component_end(s: Seq<char>, i: int) -> int
    decreases s.len() - i,
{
    if i < 0 || i >= s.len() || s[i] == '/' {
        i
    } else {
        component_end(s, i + 1)
    }
}

/// The component of `s` that starts at `i`.
pub open spec fn component_at(s: Seq<char>, i: int) -> Seq<char> {
    s.subrange(i, component_end(s, i))
}

/// Whether `name` hides the entry that bears it: it starts with a dot and
/// is neither `.` nor `..`.
pub open spec fn dot_name(name: Seq<char>) -> bool {
    &&& name.len() > 0
    &&& name[0] == '.'
    &&& name != seq!['.']
    &&& name != seq!['.', '.']
}

/// Whether the component of `path` that starts at `i` is a name that
/// hides.
pub open spec fn dot_name_at(path: Seq<char>, i: int) -> bool {
    component_starts(path, i) && dot_name(component_at(path, i))
}

/// Whether `path` names a hidden entry: its own name, or that of a
/// directory on the way to it, hides.
pub open spec fn has_dot_name(path: Seq<char>) -> bool {
    exists|i: int| #[trigger] dot_name_at(path, i)
}

/// `pattern` without the `./` in front of it, as often as it stands there.
/// The glob writes its matches without it.
pub open spec fn without_here(pattern: Seq<char>) -> Seq<char>
    decreases pattern.len(),
{
    if pattern.len() >= 2 && pattern[0] == '.' && pattern[1] == '/' {
        without_here(pattern.skip(2))
    } else {
        pattern
    }
}

/// Whether `path`, which the glob's walk found for the request, is hidden
/// from it. Only a path that names a hidden entry can be, and only where
/// the request keeps wildcards from the dot at the start of a name. Such a
/// path is hidden unless the glob's matcher, held to that rule, matches the
/// pattern against the whole path: a wildcard then stands for no dot at
/// the start of a name, so each such dot is typed in the pattern.
pub open spec fn hidden(request: GlobRequestView, path: Seq<char>) -> bool {
    &&& request.require_literal_leading_dot
    &&& has_dot_name(path)
    &&& glob_matches(
        without_here(request.pattern),
        path,
        request.case_sensitive,
        request.require_literal_separator,
        request.require_literal_leading_dot,
    ) != Some(true)
}

/// A component holds no separator, and ends at one or at the end of the
/// text.
pub proof fn lemma_component_end(s: Seq<char>, i: int)
    requires
        0 <= i <= s.len(),
    ensures
        i <= component_end(s, i) <= s.len(),
        forall|j: int| i <= j < component_end(s, i) ==> s[j] != '/',
        component_end(s, i) == s.len() || s[component_end(s, i)] == '/',
    decreases s.len() - i,
{
    if i < s.len() && s[i] != '/' {
        lemma_component_end(s, i + 1);
    }
}

/// A path none of whose components starts with a dot is hidden from no
/// request.
pub proof fn lemma_plain_path_is_not_hidden(request: GlobRequestView, path: Seq<char>)
    requires
        forall|i: int| component_starts(path, i) && i < path.len() ==> path[i] != '.',
    ensures
        !hidden(request, path),
{
    assert forall|i: int| !dot_name_at(path, i) by {
        if component_starts(path, i) {
            lemma_component_end(path, i);
        }
    }
}

/// Where the component of `s` that starts at `start` ends.
fn end_of_component(s: &Vec<char>, start: usize) -> (end: usize)
    requires
        start <= s.len(),
    ensures
        end == component_end(s@, start as int),
        start <= end <= s.len(),
        forall|j: int| start <= j < end ==> s@[j] != '/',
        end == s.len() || s@[end as int] == '/',
{
    let mut end: usize = start;
    while end < s.len() && s[end] != '/'
        invariant
            start <= end <= s.len(),
            component_end(s@, start as int) == component_end(s@, end as int),
            forall|j: int| start <= j < end ==> s@[j] != '/',
        decreases s.len() - end,
    {
        end += 1;
    }
    end
}

/// Whether `path[from..to]` is a name that hides.
fn is_dot_name(path: &Vec<char>, from: usize, to: usize) -> (dot: bool)
    requires
        from <= to <= path.len(),
    ensures
        dot == dot_name(path@.subrange(from as int, to as int)),
{
    let ghost name = path@.subrange(from as int, to as int);
    if to == from || path[from] != '.' {
        assert(name.len() == 0 || name[0] != '.');
        return false;
    }
    assert(name[0] == '.');
    if to - from == 1 {
        assert(name =~= seq!['.']);
        return false;
    }
    if to - from == 2 && path[from + 1] == '.' {
        assert(name[1] == '.');
        assert(name =~= seq!['.', '.']);
        return false;
    }
    assert(name != seq!['.']) by {
        assert(seq!['.'].len() == 1);
    }
    assert(name != seq!['.', '.']) by {
        assert(seq!['.', '.'].len() == 2);
        assert(seq!['.', '.'][1] == '.');
        if to - from == 2 {
            assert(name[1] != '.');
        }
    }
    true
}

/// Whether `path` names a hidden entry.
pub fn names_hidden_entry(path: &str) -> (named: bool)
    ensures
        named == has_dot_name(path@),
{
    let found = chars_of(path);
    let mut start: usize = 0;
    loop
        invariant
            found@ == path@,
            start <= found.len(),
            component_starts(found@, start as int),
            forall|k: int| 0 <= k < start ==> !#[trigger] dot_name_at(found@, k),
        decreases found.len() - start,
    {
        let end = end_of_component(&found, start);
        if is_dot_name(&found, start, end) {
            assert(dot_name_at(found@, start as int));
            return true;
        }
        assert(!dot_name_at(found@, start as int));
        if end == found.len() {
            assert forall|k: int| !#[trigger] dot_name_at(found@, k) by {
                if k > start && component_starts(found@, k) {
                    assert(found@[k - 1] != '/');
                }
            }
            return false;
        }
        assert forall|k: int| 0 <= k < end + 1 implies !#[trigger] dot_name_at(found@, k) by {
            if k > start && component_starts(found@, k) {
                assert(found@[k - 1] != '/');
            }
        }
        start = end + 1;
    }
}

/// `pattern` without the `./` in front of it.
pub fn strip_here(pattern: &str) -> (rest: String)
    ensures
        rest@ == without_here(pattern@),
{
    let typed = chars_of(pattern);
    let n = typed.len();
    let mut from: usize = 0;
    assert(typed@.skip(0) == typed@);
    while n - from >= 2 && typed[from] == '.' && typed[from + 1] == '/'
        invariant
            from <= n,
            n == typed.len(),
            without_here(typed@) == without_here(typed@.skip(from as int)),
        decreases n - from,
    {
        assert(typed@.skip(from as int).skip(2) == typed@.skip(from + 2));
        from += 2;
    }
    let mut rest: Vec<char> = Vec::new();
    copy_into(&mut rest, &typed, from, n);
    assert(rest@ =~= typed@.skip(from as int));
    string_of(&rest)
}

/// Whether `path`, which the glob's walk found for the request, is hidden
/// from it.
pub fn is_hidden(request: &GlobRequest, path: &str) -> (out_of_sight: bool)
    ensures
        out_of_sight == hidden(request@, path@),
{
    if !request.require_literal_leading_dot || !names_hidden_entry(path) {
        return false;
    }
    let pattern = strip_here(request.pattern.as_str());
    let matched = pattern_matches(
        pattern.as_str(),
        path,
        request.case_sensitive,
        request.require_literal_separator,
        request.require_literal_leading_dot,
    );
    match matched {
        Some(whole) => !whole,
        None => true,
    }
}

/// The paths among the items of a walk that are not hidden from the
/// request, in the order of the walk. The items that stand for an
/// unreadable directory are no paths.
pub open spec fn visible_paths(request: GlobRequestView, paths: Seq<Option<String>>) -> Seq<
    Seq<char>,
> {
    paths.filter_map(
        |p: Option<String>|
            match p {
                Some(path) => if hidden(request, path@) {
                    None
                } else {
                    Some(path@)
                },
                None => None,
            },
    )
}

/// None of the visible paths is hidden.
pub proof fn lemma_visible_paths(request: GlobRequestView, paths: Seq<Option<String>>)
    ensures
        forall|i: int|
            0 <= i < visible_paths(request, paths).len() ==> !hidden(
                request,
                #[trigger] visible_paths(request, paths)[i],
            ),
    decreases paths.len(),
{
    if paths.len() > 0 {
        let front = visible_paths(request, paths.drop_last());
        let all = visible_paths(request, paths);
        lemma_visible_paths(request, paths.drop_last());
        assert forall|i: int| 0 <= i < all.len() implies !hidden(request, #[trigger] all[i]) by {
            if i < front.len() {
                assert(all[i] == front[i]);
            } else {
                assert(paths.last() is Some);
                assert(all[i] == paths.last()->0@);
            }
        }
    }
}

/// The paths of the candidates, in their order.
pub open spec fn candidate_paths(candidates: Seq<Candidate>) -> Seq<Seq<char>> {
    candidates.map_values(|c: Candidate| c.path@)
}

/// Which entries a `DirItems` suggests.
#[derive(Clone, Debug)]
enum DirItemType {
    Dir,
    All,
}

/// What is known of one entry that a glob pattern matched.
#[derive(Clone, Debug)]
pub struct Candidate {
    /// The entry's path as the pattern matched it.
    pub path: String,
    /// Whether the entry is a directory; `None` where its metadata cannot be
    /// read.
    pub is_dir: Option<bool>,
    /// The entry's absolute path; `None` where it was not asked for or
    /// cannot be had.
    pub full_path: Option<String>,
}

/// Queries the file system for directories, files and the like.
///
/// `DirItems::new()` suggests files and directories, `DirItems::dirs()`
/// only directories.
#[derive(Clone, Debug)]
pub struct DirItems {
    dir_item_type: DirItemType,
    use_full_paths: bool,
}

impl DirItems {
    /// Whether only directories are suggested.
    pub closed spec fn only_dirs(&self) -> bool {
        self.dir_item_type is Dir
    }

    /// Whether suggestions are absolute paths.
    pub closed spec fn full_paths(&self) -> bool {
        self.use_full_paths
    }

    /// Creates a `DirItems` that suggests files and directories.
    pub fn new() -> (items: Self)
        ensures
            !items.only_dirs(),
            !items.full_paths(),
    {
        DirItems { dir_item_type: DirItemType::All, use_full_paths: false }
    }

    /// Creates a `DirItems` that suggests only directories.
    pub fn dirs() -> (items: Self)
        ensures
            items.only_dirs(),
            !items.full_paths(),
    {
        DirItems { dir_item_type: DirItemType::Dir, use_full_paths: false }
    }

    /// Makes the suggestions absolute paths (like `/home/user`).
    pub fn use_full_paths(self) -> (items: Self)
        ensures
            items.only_dirs() == self.only_dirs(),
            items.full_paths(),
    {
        let mut items = self;
        items.use_full_paths = true;
        items
    }

    /// Whether an entry with this metadata is suggested: its metadata must
    /// be readable, and it must be a directory where only directories are
    /// suggested.
    pub open spec fn keeps(&self, is_dir: Option<bool>) -> bool {
        match is_dir {
            Some(dir) => dir || !self.only_dirs(),
            None => false,
        }
    }

    /// The suggestion that a candidate becomes, if any: a kept entry is
    /// shown by its path, or by its absolute path where those are asked for,
    /// and is left out where that one cannot be had.
    pub open spec fn shown(&self, candidate: Candidate) -> Option<Seq<char>> {
        if !self.keeps(candidate.is_dir) {
            None
        } else if self.full_paths() {
            match candidate.full_path {
                Some(full) => Some(full@),
                None => None,
            }
        } else {
            Some(candidate.path@)
        }
    }

    /// All suggestions that the candidates give, in their order.
    pub open spec fn suggestions(&self, candidates: Seq<Candidate>) -> Seq<Seq<char>> {
        candidates.filter_map(|c: Candidate| self.shown(c))
    }

    /// A page is filled from the front: once the first `k` candidates give
    /// as many suggestions as the page ends at, the candidates after them
    /// change nothing on the page.
    pub proof fn lemma_enough_candidates(
        &self,
        candidates: Seq<Candidate>,
        k: int,
        position: int,
        limit: int,
    )
        requires
            0 <= k <= candidates.len(),
            0 <= position,
            0 <= limit,
            self.suggestions(candidates.take(k)).len() >= position + limit,
        ensures
            page(self.suggestions(candidates.take(k)), position, limit) == page(
                self.suggestions(candidates),
                position,
                limit,
            ),
    {
        self.lemma_suggestions_grow(candidates, k, candidates.len() as int);
        assert(candidates.take(candidates.len() as int) == candidates);
        let some = self.suggestions(candidates.take(k));
        let all = self.suggestions(candidates);
        assert(page(some, position, limit) =~= page(all, position, limit));
    }

    /// The suggestions of the first `k` candidates are the first of the
    /// suggestions of the first `n`.
    proof fn lemma_suggestions_grow(&self, candidates: Seq<Candidate>, k: int, n: int)
        requires
            0 <= k <= n <= candidates.len(),
        ensures
            self.suggestions(candidates.take(k)).len() <= self.suggestions(
                candidates.take(n),
            ).len(),
            self.suggestions(candidates.take(k)) == self.suggestions(candidates.take(n)).take(
                self.suggestions(candidates.take(k)).len() as int,
            ),
        decreases n - k,
    {
        let some = self.suggestions(candidates.take(k));
        if k < n {
            self.lemma_suggestions_grow(candidates, k, n - 1);
            candidates.lemma_filter_map_take_succ(|c: Candidate| self.shown(c), n - 1);
            let less = self.suggestions(candidates.take(n - 1));
            let more = self.suggestions(candidates.take(n));
            assert(less =~= more.take(less.len() as int));
            assert(some =~= more.take(some.len() as int));
        } else {
            assert(some =~= some.take(some.len() as int));
        }
    }

    /// The page of suggestions for matched entries of which the file system
    /// said what `candidates` holds.
    pub fn select(&self, candidates: &Vec<Candidate>, position: usize, limit: usize) -> (found:
        Vec<String>)
        ensures
            texts(found@) == page(self.suggestions(candidates@), position as int, limit as int),
    {
        let mut all: Vec<String> = Vec::new();
        let mut i: usize = 0;
        assert(candidates@.take(0).filter_map(|c: Candidate| self.shown(c)) =~= Seq::<
            Seq<char>,
        >::empty());
        assert(texts(all@) =~= Seq::<Seq<char>>::empty());
        while i < candidates.len()
            invariant
                i <= candidates.len(),
                texts(all@) == self.suggestions(candidates@.take(i as int)),
            decreases candidates.len() - i,
        {
            proof {
                candidates@.lemma_filter_map_take_succ(|c: Candidate| self.shown(c), i as int);
            }
            let ghost before = texts(all@);
            let candidate = &candidates[i];
            let kept = match candidate.is_dir {
                Some(dir) => dir || !self.only_directories(),
                None => false,
            };
            if kept {
                if self.use_full_paths {
                    match &candidate.full_path {
                        Some(full) => {
                            all.push(full.clone());
                            assert(texts(all@) =~= before.push(full@));
                        },
                        None => {},
                    }
                } else {
                    all.push(candidate.path.clone());
                    assert(texts(all@) =~= before.push(candidate.path@));
                }
            }
            i += 1;
        }
        assert(candidates@.take(candidates.len() as int) == candidates@);
        paginate(&all, position, limit)
    }

    /// Whether only directories are suggested.
    pub fn only_directories(&self) -> (only: bool)
        ensures
            only == self.only_dirs(),
    {
        match self.dir_item_type {
            DirItemType::Dir => true,
            DirItemType::All => false,
        }
    }

    /// Whether `candidates` is what is left of the first `walked` items of
    /// the glob's answer `paths` to the request. There is one candidate for
    /// each of these items that is a path and is not hidden from the
    /// request, in their order and under that path; an absolute path is
    /// held only by a candidate that is kept, and only where absolute paths
    /// are asked for; the candidates give no more than `enough`
    /// suggestions; and every item was looked at unless the candidates give
    /// `enough` suggestions.
    pub open spec fn walked_to(
        &self,
        request: GlobRequestView,
        paths: Seq<Option<String>>,
        enough: nat,
        candidates: Seq<Candidate>,
        walked: int,
    ) -> bool {
        &&& 0 <= walked <= paths.len()
        &&& candidate_paths(candidates) == visible_paths(request, paths.take(walked))
        &&& forall|i: int|
            0 <= i < candidates.len() && (#[trigger] candidates[i]).full_path is Some
                ==> self.full_paths() && self.keeps(candidates[i].is_dir)
        &&& self.suggestions(candidates).len() <= enough
        &&& walked == paths.len() || self.suggestions(candidates).len() == enough
    }

    /// What the glob's answer to the request leaves to choose from. An
    /// answer of `None`, the glob's refusal of the pattern, leaves nothing.
    /// Of the items of an answer, those that stand for an unreadable
    /// directory and the paths that are hidden from the request are passed
    /// over. Of each other path the file system is asked whether it is a
    /// directory and, for an entry that is kept where absolute paths are
    /// asked for, which absolute path it has. The walk stops as soon as
    /// `enough` of the candidates are suggestions.
    pub fn probe(
        &self,
        request: &GlobRequest,
        answer: &Option<Vec<Option<String>>>,
        enough: usize,
    ) -> (candidates: Vec<Candidate>)
        ensures
            match answer {
                Some(paths) => exists|walked: int| #[trigger]
                    self.walked_to(request@, paths@, enough as nat, candidates@, walked),
                None => candidates@.len() == 0,
            },
    {
        let mut candidates: Vec<Candidate> = Vec::new();
        let paths = match answer {
            Some(paths) => paths,
            None => {
                return candidates;
            },
        };
        let mut shown: usize = 0;
        let mut i: usize = 0;
        proof {
            assert(candidate_paths(candidates@) =~= visible_paths(request@, paths@.take(0)));
            assert(self.suggestions(candidates@) =~= Seq::<Seq<char>>::empty());
        }
        while i < paths.len() && shown < enough
            invariant
                i <= paths.len(),
                candidates.len() <= i,
                shown <= enough,
                shown == self.suggestions(candidates@).len(),
                candidate_paths(candidates@) == visible_paths(request@, paths@.take(i as int)),
                forall|j: int|
                    0 <= j < candidates.len() && (#[trigger] candidates[j]).full_path is Some
                        ==> self.full_paths() && self.keeps(candidates[j].is_dir),
            decreases paths.len() - i,
        {
            proof {
                paths@.lemma_filter_map_take_succ(
                    |p: Option<String>|
                        match p {
                            Some(path) => if hidden(request@, path@) {
                                None
                            } else {
                                Some(path@)
                            },
                            None => None,
                        },
                    i as int,
                );
            }
            match &paths[i] {
                Some(path) => {
                    if !is_hidden(request, path.as_str()) {
                        let is_dir = is_directory(path.as_str());
                        let kept = match is_dir {
                            Some(dir) => dir || !self.only_directories(),
                            None => false,
                        };
                        let full_path = if kept && self.use_full_paths {
                            canonical(path.as_str())
                        } else {
                            None
                        };
                        if kept && (!self.use_full_paths || full_path.is_some()) {
                            shown += 1;
                        }
                        let ghost before = candidates@;
                        let candidate = Candidate { path: path.clone(), is_dir, full_path };
                        candidates.push(candidate);
                        proof {
                            assert(candidates@.drop_last() == before);
                            assert(candidate_paths(candidates@) =~= candidate_paths(before).push(
                                path@,
                            ));
                        }
                    }
                },
                None => {},
            }
            i += 1;
        }
        assert(self.walked_to(request@, paths@, enough as nat, candidates@, i as int));
        candidates
    }

    /// Whether `found` can be the answer to a query for `text`, with `home`
    /// as the home directory and `candidates` as what the glob's answer
    /// left to choose from. Where the text has no pattern, for want of a
    /// home directory, or the glob refuses the pattern, nothing is found.
    /// Else what is found is the page of the suggestions that the
    /// candidates give, and none of the candidates is hidden from what the
    /// text asks for.
    pub open spec fn answered(
        &self,
        text: Seq<char>,
        home: Option<Seq<char>>,
        candidates: Seq<Candidate>,
        position: nat,
        items_count: nat,
        found: Seq<Seq<char>>,
    ) -> bool {
        match request_of(text, home) {
            Some(request) => if glob_accepts(request.pattern) {
                &&& found == page(self.suggestions(candidates), position as int, items_count as int)
                &&& forall|i: int|
                    0 <= i < candidates.len() ==> !hidden(
                        request,
                        (#[trigger] candidates[i]).path@,
                    )
            } else {
                found.len() == 0
            },
            None => found.len() == 0,
        }
    }
}

/// A pattern that the glob refuses finds nothing: where the typed text
/// asks for no home directory and the glob does not take its pattern, the
/// one answer to a query is the empty one.
pub proof fn lemma_refused_pattern_finds_nothing(
    items: DirItems,
    text: Seq<char>,
    position: nat,
    items_count: nat,
    found: Seq<Seq<char>>,
)
    requires
        !wants_home(text),
        items.answers(text, position, items_count, found),
    ensures
        !glob_accepts(pattern_of(text, None)->0) ==> found.len() == 0,
{
    let (home, candidates) = choose|home: Option<Seq<char>>, candidates: Seq<Candidate>| #[trigger]
        items.answered(text, home, candidates, position, items_count, found);
    assert(request_of(text, home) == request_of(text, None));
}

impl Feeder for DirItems {
    /// The answers that the file system and the environment can bring
    /// about: each is what `answered` allows for some home directory and
    /// some list of matched entries.
    open spec fn answers(
        &self,
        text: Seq<char>,
        position: nat,
        items_count: nat,
        found: Seq<Seq<char>>,
    ) -> bool {
        exists|home: Option<Seq<char>>, candidates: Seq<Candidate>| #[trigger]
            self.answered(text, home, candidates, position, items_count, found)
    }

    /// The page of entries that the file system holds under the glob
    /// pattern for `text`. The glob walks the disk for the pattern of
    /// `glob_request` with the rule on hidden entries unset, since with it
    /// the walk stops the program on a file name that is not valid UTF-8;
    /// `probe` applies that rule to what the walk yields and looks the rest
    /// up on disk; `select` makes the page. Nothing is found where the glob
    /// refuses the pattern, or where `text` asks for a home directory that
    /// is not known.
    fn query(&self, text: &str, position: usize, items_count: usize) -> (found: Vec<String>) {
        let home = if starts_with_home(text) {
            home_dir()
        } else {
            None
        };
        let home_text = match &home {
            Some(h) => Some(h.as_str()),
            None => None,
        };
        let enough = if items_count <= usize::MAX - position {
            position + items_count
        } else {
            usize::MAX
        };
        let candidates = match glob_request(text, home_text) {
            Some(request) => {
                let answer = glob_paths(
                    request.pattern.as_str(),
                    request.case_sensitive,
                    request.require_literal_separator,
                    false,
                );
                let candidates = self.probe(&request, &answer, enough);
                proof {
                    if let Some(paths) = answer {
                        let walked = choose|walked: int| #[trigger]
                            self.walked_to(request@, paths@, enough as nat, candidates@, walked);
                        lemma_visible_paths(request@, paths@.take(walked));
                        assert forall|i: int| 0 <= i < candidates.len() implies !hidden(
                            request@,
                            (#[trigger] candidates@[i]).path@,
                        ) by {
                            assert(candidates@[i].path@ == candidate_paths(candidates@)[i]);
                        }
                    }
                }
                candidates
            },
            None => Vec::new(),
        };
        let found = self.select(&candidates, position, items_count);
        proof {
            lemma_page_items(self.suggestions(candidates@), position as int, items_count as int);
            assert(self.answered(
                text@,
                view_of(home_text),
                candidates@,
                position as nat,
                items_count as nat,
                texts(found@),
            ));
        }
        found
    }
}

impl Feeder for Vec<&'static str> {
    /// The one answer: the page of the items that hold `text` when case is
    /// set aside.
    open spec fn answers(
        &self,
        text: Seq<char>,
        position: nat,
        items_count: nat,
        found: Seq<Seq<char>>,
    ) -> bool {
        found == page(
            matching(self@.map_values(|s: &'static str| s@), text),
            position as int,
            items_count as int,
        )
    }

    /// The page of the items that hold `text` when case is set aside.
    fn query(&self, text: &str, position: usize, items_count: usize) -> (found: Vec<String>)
        ensures
            texts(found@) == page(
                matching(self@.map_values(|s: &'static str| s@), text@),
                position as int,
                items_count as int,
            ),
    {
        let mut items: Vec<String> = Vec::new();
        let mut i: usize = 0;
        while i < self.len()
            invariant
                i <= self.len(),
                texts(items@) == self@.take(i as int).map_values(|s: &'static str| s@),
            decreases self.len() - i,
        {
            let ghost before = texts(items@);
            items.push(self[i].to_owned());
            assert(texts(items@) =~= before.push(self@[i as int]@));
            assert(self@.take(i + 1) == self@.take(i as int).push(self@[i as int]));
            i += 1;
        }
        assert(self@.take(self.len() as int) == self@);
        let found = items.query(text, position, items_count);
        proof {
            lemma_page_items(
                matching(self@.map_values(|s: &'static str| s@), text@),
                position as int,
                items_count as int,
            );
        }
        found
    }
}

} // verus!
