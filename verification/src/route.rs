//! The route table: an ordered list of bindings from a method and a path
//! pattern to a handler. The first entry that matches wins, so a pattern for
//! one path can stand in front of a pattern for every path below it.

use crate::text::{
    chars_eq, chars_of, copy_range, find_char, has_prefix, parse_i64, parse_int, scan_for,
    starts_with,
};
use vstd::prelude::*;

verus! {

/// What kind of file a static asset is.
#[derive(Clone, Copy, Debug, PartialEq, Eq)]
pub enum FileKind {
    Page,
    Script,
    Style,
}

/// A static asset: where its file lies, below the working directory, and what
/// kind of file it is.
#[derive(Clone, Copy, Debug, PartialEq, Eq)]
pub struct StaticFile {
    pub file: &'static str,
    pub kind: FileKind,
}

/// What a route is bound to.
#[derive(Clone, Copy, Debug, PartialEq, Eq)]
pub enum Handler {
    Signup,
    Login,
    FetchUsers,
    AddBook,
    FetchBooks,
    /// Takes the book's id from the path.
    FetchBook,
    /// Takes the book's id from the path.
    EditBook,
    /// Takes the book's id from the path.
    DeleteBook,
    Borrow,
    /// Takes the user's id from the path.
    FetchBorrowed,
    FetchAllBorrowed,
    /// Takes the ids of the borrow record and of the book from the path.
    ReturnBook,
    File(StaticFile),
}

/// A request, routed: the handler to call, with the parameters that its path
/// gave, or the reason why none is called.
#[derive(Clone, Copy, Debug, PartialEq, Eq)]
pub enum Route {
    Signup,
    Login,
    FetchUsers,
    AddBook,
    FetchBooks,
    FetchBook(i64),
    EditBook(i64),
    DeleteBook(i64),
    Borrow,
    FetchBorrowed(i64),
    FetchAllBorrowed,
    ReturnBook(i64, i64),
    File(StaticFile),
    /// The path holds one parameter and it is no number.
    InvalidId,
    /// The path holds two parameters and one of them is no number.
    InvalidIds,
    /// The path does not hold the two parameters that the handler takes.
    InvalidPath,
    /// No entry of the table matches.
    NotFound,
}

/// One entry of the table. With `prefix` set the entry matches every path
/// that begins with `path`, else only `path` itself.
pub struct RouteEntry {
    pub method: Vec<char>,
    pub path: Vec<char>,
    pub prefix: bool,
    pub handler: Handler,
}

/// The mathematical content of a [`RouteEntry`].
pub struct RouteEntryView {
    pub method: Seq<char>,
    pub path: Seq<char>,
    pub prefix: bool,
    pub handler: Handler,
}

impl View for RouteEntry {
    type V = RouteEntryView;

    open spec fn view(&self) -> RouteEntryView {
        RouteEntryView {
            method: self.method@,
            path: self.path@,
            prefix: self.prefix,
            handler: self.handler,
        }
    }
}

impl RouteEntryView {
    /// Whether the entry is bound to a request with this method and path.
    pub open spec fn matches(self, method: Seq<char>, path: Seq<char>) -> bool {
        self.method == method && if self.prefix {
            starts_with(path, self.path)
        } else {
            path == self.path
        }
    }
}

/// An entry for `path` alone.
pub open spec fn exact(method: Seq<char>, path: Seq<char>, handler: Handler) -> RouteEntryView {
    RouteEntryView { method, path, prefix: false, handler }
}

/// An entry for every path that begins with `path`.
pub open spec fn below(method: Seq<char>, path: Seq<char>, handler: Handler) -> RouteEntryView {
    RouteEntryView { method, path, prefix: true, handler }
}

/// An entry that serves the page `file` at `path`.
pub open spec fn page(path: Seq<char>, file: &'static str) -> RouteEntryView {
    exact("GET"@, path, Handler::File(StaticFile { file, kind: FileKind::Page }))
}

/// An entry that serves the script `file` at `path`.
pub open spec fn script(path: Seq<char>, file: &'static str) -> RouteEntryView {
    exact("GET"@, path, Handler::File(StaticFile { file, kind: FileKind::Script }))
}

/// The entries of the service's table, in the order in which they are tried.
pub open spec fn standard_entries() -> Seq<RouteEntryView> {
    seq![
        exact("POST"@, "/api/signup"@, Handler::Signup),
        exact("POST"@, "/api/login"@, Handler::Login),
        exact("GET"@, "/api/users"@, Handler::FetchUsers),
        exact("POST"@, "/api/books"@, Handler::AddBook),
        exact("GET"@, "/api/books"@, Handler::FetchBooks),
        below("GET"@, "/api/books/"@, Handler::FetchBook),
        below("PATCH"@, "/api/books/"@, Handler::EditBook),
        below("DELETE"@, "/api/books/"@, Handler::DeleteBook),
        exact("POST"@, "/api/borrow"@, Handler::Borrow),
        below("GET"@, "/api/borrow/"@, Handler::FetchBorrowed),
        exact("GET"@, "/api/borrow"@, Handler::FetchAllBorrowed),
        below("DELETE"@, "/api/borrow/"@, Handler::ReturnBook),
        page("/login.html"@, "frontend/login.html"),
        page("/signup.html"@, "frontend/signup.html"),
        page("/admin_dashboard.html"@, "frontend/admin_dashboard.html"),
        page("/manage_books.html"@, "frontend/manage_books.html"),
        page("/create_book.html"@, "frontend/create_book.html"),
        page("/edit_book.html"@, "frontend/edit_book.html"),
        page("/users.html"@, "frontend/users.html"),
        page("/borrow_details_admin.html"@, "frontend/borrow_details_admin.html"),
        page("/dashboard.html"@, "frontend/dashboard.html"),
        page("/browse_books.html"@, "frontend/browse_books.html"),
        page("/borrow_details.html"@, "frontend/borrow_details.html"),
        script("/js/signup.js"@, "frontend/js/signup.js"),
        script("/js/login.js"@, "frontend/js/login.js"),
        script("/js/manage_books.js"@, "frontend/js/manage_books.js"),
        script("/js/create_book.js"@, "frontend/js/create_book.js"),
        script("/js/edit_book.js"@, "frontend/js/edit_book.js"),
        script("/js/users.js"@, "frontend/js/users.js"),
        script("/js/browse_books.js"@, "frontend/js/browse_books.js"),
        script("/js/borrow_details.js"@, "frontend/js/borrow_details.js"),
        script("/js/borrow_details_admin.js"@, "frontend/js/borrow_details_admin.js"),
        script("/js/auth.js"@, "frontend/js/auth.js"),
        exact(
            "GET"@,
            "/styles.css"@,
            Handler::File(StaticFile { file: "frontend/styles.css", kind: FileKind::Style }),
        ),
    ]
}

/// The index of the first of `entries` that matches, or `None` if none does.
pub open spec fn first_match(entries: Seq<RouteEntryView>, method: Seq<char>, path: Seq<char>)
    -> Option<int>
    decreases entries.len(),
{
    if entries.len() == 0 {
        None
    } else if entries[0].matches(method, path) {
        Some(0int)
    } else {
        match first_match(entries.skip(1), method, path) {
            Some(i) => Some(i + 1),
            None => None,
        }
    }
}

/// `s` with every leading repetition of `prefix` taken off.
pub open spec fn strip_repeated(s: Seq<char>, prefix: Seq<char>) -> Seq<char>
    decreases s.len(),
{
    if prefix.len() > 0 && starts_with(s, prefix) {
        strip_repeated(s.skip(prefix.len() as int), prefix)
    } else {
        s
    }
}

/// The id that `s` writes, if it writes one.
pub open spec fn id_of(s: Seq<char>) -> Option<int> {
    parse_int(s, true, i64::MIN as int, i64::MAX as int)
}

/// The route of a handler that takes one id: what is left of the path after
/// the entry's pattern has to be a number.
pub open spec fn bind_one(rest: Seq<char>, handler: Handler) -> Route {
    match id_of(rest) {
        Some(id) => match handler {
            Handler::FetchBook => Route::FetchBook(id as i64),
            Handler::EditBook => Route::EditBook(id as i64),
            Handler::DeleteBook => Route::DeleteBook(id as i64),
            _ => Route::FetchBorrowed(id as i64),
        },
        None => Route::InvalidId,
    }
}

/// The route of the handler that takes two ids: what is left of the path
/// after the entry's pattern has to be two numbers with one slash between
/// them, and no other slash.
pub open spec fn bind_two(rest: Seq<char>) -> Route {
    let slash = find_char(rest, '/', 0);
    if slash < rest.len() && find_char(rest, '/', slash + 1) == rest.len() {
        match (id_of(rest.subrange(0, slash)), id_of(rest.subrange(slash + 1, rest.len() as int))) {
            (Some(record), Some(book)) => Route::ReturnBook(record as i64, book as i64),
            _ => Route::InvalidIds,
        }
    } else {
        Route::InvalidPath
    }
}

/// The route that an entry gives to a path that it matches.
pub open spec fn bind(entry: RouteEntryView, path: Seq<char>) -> Route {
    match entry.handler {
        Handler::Signup => Route::Signup,
        Handler::Login => Route::Login,
        Handler::FetchUsers => Route::FetchUsers,
        Handler::AddBook => Route::AddBook,
        Handler::FetchBooks => Route::FetchBooks,
        Handler::Borrow => Route::Borrow,
        Handler::FetchAllBorrowed => Route::FetchAllBorrowed,
        Handler::File(file) => Route::File(file),
        Handler::ReturnBook => bind_two(strip_repeated(path, entry.path)),
        handler => bind_one(strip_repeated(path, entry.path), handler),
    }
}

/// The route of a request: that of the first entry that matches it, or
/// `NotFound`.
pub open spec fn route_of(entries: Seq<RouteEntryView>, method: Seq<char>, path: Seq<char>)
    -> Route {
    match first_match(entries, method, path) {
        Some(i) => bind(entries[i], path),
        None => Route::NotFound,
    }
}

/// The views of `entries`, one by one.
pub open spec fn entry_views(entries: Seq<RouteEntry>) -> Seq<RouteEntryView> {
    entries.map_values(|e: RouteEntry| e@)
}

/// A route table.
pub struct RouteTable {
    entries: Vec<RouteEntry>,
}

impl RouteTable {
    /// The entries, in the order in which they are tried.
    pub closed spec fn entries(&self) -> Seq<RouteEntryView> {
        entry_views(self.entries@)
    }

    /// The table of the service.
    pub fn new() -> (r: RouteTable)
        ensures
            r.entries() == standard_entries(),
    {
        let mut t = RouteTable::empty();
        t.add("POST", "/api/signup", false, Handler::Signup);
        t.add("POST", "/api/login", false, Handler::Login);
        t.add("GET", "/api/users", false, Handler::FetchUsers);
        t.add("POST", "/api/books", false, Handler::AddBook);
        t.add("GET", "/api/books", false, Handler::FetchBooks);
        t.add("GET", "/api/books/", true, Handler::FetchBook);
        t.add("PATCH", "/api/books/", true, Handler::EditBook);
        t.add("DELETE", "/api/books/", true, Handler::DeleteBook);
        t.add("POST", "/api/borrow", false, Handler::Borrow);
        t.add("GET", "/api/borrow/", true, Handler::FetchBorrowed);
        t.add("GET", "/api/borrow", false, Handler::FetchAllBorrowed);
        t.add("DELETE", "/api/borrow/", true, Handler::ReturnBook);
        t.add_file("/login.html", "frontend/login.html", FileKind::Page);
        t.add_file("/signup.html", "frontend/signup.html", FileKind::Page);
        t.add_file("/admin_dashboard.html", "frontend/admin_dashboard.html", FileKind::Page);
        t.add_file("/manage_books.html", "frontend/manage_books.html", FileKind::Page);
        t.add_file("/create_book.html", "frontend/create_book.html", FileKind::Page);
        t.add_file("/edit_book.html", "frontend/edit_book.html", FileKind::Page);
        t.add_file("/users.html", "frontend/users.html", FileKind::Page);
        t.add_file(
            "/borrow_details_admin.html",
            "frontend/borrow_details_admin.html",
            FileKind::Page,
        );
        t.add_file("/dashboard.html", "frontend/dashboard.html", FileKind::Page);
        t.add_file("/browse_books.html", "frontend/browse_books.html", FileKind::Page);
        t.add_file("/borrow_details.html", "frontend/borrow_details.html", FileKind::Page);
        t.add_file("/js/signup.js", "frontend/js/signup.js", FileKind::Script);
        t.add_file("/js/login.js", "frontend/js/login.js", FileKind::Script);
        t.add_file("/js/manage_books.js", "frontend/js/manage_books.js", FileKind::Script);
        t.add_file("/js/create_book.js", "frontend/js/create_book.js", FileKind::Script);
        t.add_file("/js/edit_book.js", "frontend/js/edit_book.js", FileKind::Script);
        t.add_file("/js/users.js", "frontend/js/users.js", FileKind::Script);
        t.add_file("/js/browse_books.js", "frontend/js/browse_books.js", FileKind::Script);
        t.add_file("/js/borrow_details.js", "frontend/js/borrow_details.js", FileKind::Script);
        t.add_file(
            "/js/borrow_details_admin.js",
            "frontend/js/borrow_details_admin.js",
            FileKind::Script,
        );
        t.add_file("/js/auth.js", "frontend/js/auth.js", FileKind::Script);
        t.add_file("/styles.css", "frontend/styles.css", FileKind::Style);
        assert(t.entries() =~= standard_entries());
        t
    }

    /// A table without entries: every request is `NotFound`.
    pub fn empty() -> (r: RouteTable)
        ensures
            r.entries() == Seq::<RouteEntryView>::empty(),
    {
        let r = RouteTable { entries: Vec::new() };
        assert(r.entries() =~= Seq::<RouteEntryView>::empty());
        r
    }

    /// Adds an entry behind those that the table holds.
    pub fn add(&mut self, method: &str, path: &str, prefix: bool, handler: Handler)
        ensures
            final(self).entries() == old(self).entries().push(
                RouteEntryView { method: method@, path: path@, prefix, handler },
            ),
    {
        let entry = RouteEntry { method: chars_of(method), path: chars_of(path), prefix, handler };
        self.entries.push(entry);
        assert(self.entries() =~= old(self).entries().push(
            RouteEntryView { method: method@, path: path@, prefix, handler },
        ));
    }

    /// Adds an entry that serves `file` to a `GET` of `path`.
    pub fn add_file(&mut self, path: &str, file: &'static str, kind: FileKind)
        ensures
            final(self).entries() == old(self).entries().push(
                exact("GET"@, path@, Handler::File(StaticFile { file, kind })),
            ),
    {
        self.add("GET", path, false, Handler::File(StaticFile { file, kind }));
    }

    /// Finds the first entry that matches.
    fn lookup(&self, method: &Vec<char>, path: &Vec<char>) -> (r: Option<usize>)
        ensures
            match r {
                Some(i) => first_match(self.entries(), method@, path@) == Some(i as int) && i
                    < self.entries@.len(),
                None => first_match(self.entries(), method@, path@) is None,
            },
    {
        let mut i: usize = 0;
        let ghost all = self.entries();
        assert(all.skip(0) =~= all);
        while i < self.entries.len()
            invariant
                i <= self.entries@.len(),
                all == self.entries(),
                all.len() == self.entries@.len(),
                match first_match(all.skip(i as int), method@, path@) {
                    Some(k) => first_match(all, method@, path@) == Some(k + i),
                    None => first_match(all, method@, path@) is None,
                },
            decreases self.entries@.len() - i,
        {
            let e = &self.entries[i];
            assert(all.skip(i as int)[0] == e@);
            assert(all.skip(i as int).skip(1) =~= all.skip(i + 1));
            let path_matches = if e.prefix {
                has_prefix(path, &e.path)
            } else {
                chars_eq(path, &e.path)
            };
            if chars_eq(method, &e.method) && path_matches {
                return Some(i);
            }
            i += 1;
        }
        None
    }

    /// Routes a request: the first entry that matches its method and path
    /// decides, and the rest of the path gives the handler's parameters.
    pub fn resolve(&self, method: &str, path: &str) -> (r: Route)
        ensures
            r == route_of(self.entries(), method@, path@),
    {
        let m = chars_of(method);
        let p = chars_of(path);
        match self.lookup(&m, &p) {
            None => Route::NotFound,
            Some(i) => {
                let e = &self.entries[i];
                assert(self.entries()[i as int] == e@);
                match e.handler {
                    Handler::Signup => Route::Signup,
                    Handler::Login => Route::Login,
                    Handler::FetchUsers => Route::FetchUsers,
                    Handler::AddBook => Route::AddBook,
                    Handler::FetchBooks => Route::FetchBooks,
                    Handler::Borrow => Route::Borrow,
                    Handler::FetchAllBorrowed => Route::FetchAllBorrowed,
                    Handler::File(file) => Route::File(file),
                    Handler::ReturnBook => {
                        let rest = strip(&p, &e.path);
                        two_ids(&rest)
                    },
                    handler => {
                        let rest = strip(&p, &e.path);
                        one_id(&rest, handler)
                    },
                }
            },
        }
    }
}

/// Takes every leading repetition of `prefix` off `s`.
fn strip(s: &Vec<char>, prefix: &Vec<char>) -> (r: Vec<char>)
    ensures
        r@ == strip_repeated(s@, prefix@),
{
    if prefix.len() == 0 {
        return copy_range(s, 0, s.len());
    }
    let mut from: usize = 0;
    assert(s@.skip(0) =~= s@);
    while s.len() - from >= prefix.len() && matches_at(s, from, prefix)
        invariant
            from <= s.len(),
            prefix.len() > 0,
            strip_repeated(s@, prefix@) == strip_repeated(s@.skip(from as int), prefix@),
        decreases s.len() - from,
    {
        assert(s@.skip(from as int).skip(prefix@.len() as int) =~= s@.skip(
            from + prefix@.len(),
        ));
        from += prefix.len();
    }
    assert(s@.skip(from as int) =~= s@.subrange(from as int, s@.len() as int));
    copy_range(s, from, s.len())
}

/// Tests whether `s` holds `prefix` at `from`.
fn matches_at(s: &Vec<char>, from: usize, prefix: &Vec<char>) -> (r: bool)
    requires
        from <= s.len(),
        prefix.len() <= s.len() - from,
    ensures
        r == starts_with(s@.skip(from as int), prefix@),
{
    let mut i: usize = 0;
    while i < prefix.len()
        invariant
            i <= prefix.len() <= s.len() - from,
            forall|k: int| 0 <= k < i ==> s@[from + k] == prefix@[k],
        decreases prefix.len() - i,
    {
        if s[from + i] != prefix[i] {
            assert(s@.skip(from as int).subrange(0, prefix@.len() as int)[i as int]
                != prefix@[i as int]);
            return false;
        }
        i += 1;
    }
    assert(s@.skip(from as int).subrange(0, prefix@.len() as int) =~= prefix@);
    true
}

/// Reads an id.
fn read_id(s: &Vec<char>) -> (r: Option<i64>)
    ensures
        match r {
            Some(id) => id_of(s@) == Some(id as int),
            None => id_of(s@) is None,
        },
{
    parse_i64(s)
}

/// Binds a handler that takes one id to what the path holds behind the
/// entry's pattern.
fn one_id(rest: &Vec<char>, handler: Handler) -> (r: Route)
    ensures
        r == bind_one(rest@, handler),
{
    match read_id(rest) {
        Some(id) => match handler {
            Handler::FetchBook => Route::FetchBook(id),
            Handler::EditBook => Route::EditBook(id),
            Handler::DeleteBook => Route::DeleteBook(id),
            _ => Route::FetchBorrowed(id),
        },
        None => Route::InvalidId,
    }
}

/// Binds the handler that takes two ids to what the path holds behind the
/// entry's pattern.
fn two_ids(rest: &Vec<char>) -> (r: Route)
    ensures
        r == bind_two(rest@),
{
    let slash = scan_for(rest, '/', 0);
    if slash < rest.len() && scan_for(rest, '/', slash + 1) == rest.len() {
        let first = copy_range(rest, 0, slash);
        let second = copy_range(rest, slash + 1, rest.len());
        match (read_id(&first), read_id(&second)) {
            (Some(record), Some(book)) => Route::ReturnBook(record, book),
            _ => Route::InvalidIds,
        }
    } else {
        Route::InvalidPath
    }
}

/// The first entry that matches wins: no entry in front of the one that
/// [`first_match`] names matches, and where it names none, no entry matches.
pub proof fn lemma_first_match_wins(
    entries: Seq<RouteEntryView>,
    method: Seq<char>,
    path: Seq<char>,
)
    ensures
        match first_match(entries, method, path) {
            Some(i) => 0 <= i < entries.len() && entries[i].matches(method, path) && forall|j: int|
                0 <= j < i ==> !(#[trigger] entries[j]).matches(method, path),
            None => forall|j: int|
                0 <= j < entries.len() ==> !(#[trigger] entries[j]).matches(method, path),
        },
    decreases entries.len(),
{
    if entries.len() > 0 && !entries[0].matches(method, path) {
        let tail = entries.skip(1);
        lemma_first_match_wins(tail, method, path);
        assert(forall|j: int| 1 <= j < entries.len() ==> entries[j] == tail[j - 1]);
    }
}

} // verus!
