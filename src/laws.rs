//! Properties that relate several parts of the library, stated over their models.
use vstd::prelude::*;

use crate::http_request::{
    method_end, method_of, parse_request, path_token, request_line, separator_at,
    find_separator, HttpRequestType, RequestModel,
};
use crate::http_response::{code_of, HttpStatusCode};
use crate::http_response::ResponseModel;
use crate::router::{
    body_bytes, created_model, dispatch_model, file_model, first_match, header_value,
    last_segment, not_found_model, route_of, DispatchModel, Route,
};
use crate::text::{decimal, eq_ignore_case, find_from, fold};
use crate::worker_pool::{after_take, pool_wf, running, runs, PoolModel, WorkerState};

verus! {

proof fn lemma_find_from_first(s: Seq<char>, c: char, i: int, k: int)
    requires
        0 <= i <= k < s.len(),
        s[k] == c,
        forall|j: int| i <= j < k ==> s[j] != c,
    ensures
        find_from(s, c, i) == k,
    decreases k - i,
{
    if i < k {
        lemma_find_from_first(s, c, i + 1, k);
    }
}

proof fn lemma_find_from_none_before(s: Seq<char>, c: char, i: int, k: int)
    requires
        0 <= i <= k <= s.len(),
        forall|j: int| i <= j < k ==> s[j] != c,
    ensures
        k <= find_from(s, c, i) <= s.len(),
    decreases s.len() - i,
{
    if i < s.len() {
        if i < k {
            lemma_find_from_none_before(s, c, i + 1, k);
        } else {
            crate::text::lemma_find_from_bounds(s, c, i);
        }
    }
}

proof fn lemma_find_separator_at_most(s: Seq<char>, i: int, k: int)
    requires
        0 <= i <= k,
        separator_at(s, k),
    ensures
        find_separator(s, i) <= k,
    decreases k - i,
{
    if i < k && !separator_at(s, i) {
        lemma_find_separator_at_most(s, i + 1, k);
    }
}

/// A request that starts with a supported method token, a space, a path, a
/// space, and whose header block ends with a blank line, parses to that method
/// and exactly that path, whatever the version, headers and body.
pub proof fn lemma_request_line_recovered(
    m: Seq<char>,
    path: Seq<char>,
    rest: Seq<char>,
    body: Seq<char>,
)
    requires
        method_of(m) is Some,
        forall|i: int| 0 <= i < m.len() ==> m[i] != ' ' && m[i] != '\n',
        forall|i: int| 0 <= i < path.len() ==> path[i] != ' ' && path[i] != '\n',
    ensures
        ({
            let s = m + seq![' '] + path + seq![' '] + rest + seq!['\r', '\n', '\r', '\n'] + body;
            &&& parse_request(s) is Ok
            &&& parse_request(s)->Ok_0.request_type == method_of(m)->0
            &&& parse_request(s)->Ok_0.request_path == path
        }),
{
    let s = m + seq![' '] + path + seq![' '] + rest + seq!['\r', '\n', '\r', '\n'] + body;
    let n1 = m.len() as int;
    let p0 = n1 + 1;
    let p2 = p0 + path.len();
    let k = p2 + 1 + rest.len();
    assert(s[n1] == ' ');
    assert(s[p2] == ' ');
    assert forall|j: int| 0 <= j < n1 implies s[j] == m[j] by {}
    assert forall|j: int| p0 <= j < p2 implies s[j] == path[j - p0] by {}
    assert(s.subrange(k, k + 4) =~= seq!['\r', '\n', '\r', '\n']);
    assert(separator_at(s, k));
    lemma_find_separator_at_most(s, 0, k);
    assert forall|j: int| 0 <= j < p2 + 1 implies s[j] != '\n' by {
        if j < n1 {
            assert(s[j] == m[j]);
        } else if p0 <= j < p2 {
            assert(s[j] == path[j - p0]);
        }
    }
    lemma_find_from_none_before(s, '\n', 0, p2 + 1);
    let e = find_from(s, '\n', 0);
    let line = request_line(s);
    assert(line == s.subrange(0, e));
    assert forall|j: int| 0 <= j < n1 implies line[j] != ' ' by {
        assert(line[j] == m[j]);
    }
    lemma_find_from_first(line, ' ', 0, n1);
    assert(method_end(line) == n1);
    assert(line.subrange(0, n1) =~= m);
    let tail = line.subrange(p0, line.len() as int);
    assert forall|j: int| 0 <= j < path.len() implies tail[j] != ' ' by {
        assert(tail[j] == path[j]);
    }
    assert(tail[path.len() as int] == ' ');
    lemma_find_from_first(tail, ' ', 0, path.len() as int);
    assert(path_token(line) =~= path);
}

proof fn lemma_first_match_case(
    hs1: Seq<(Seq<char>, Seq<char>)>,
    hs2: Seq<(Seq<char>, Seq<char>)>,
    name: Seq<char>,
    i: int,
)
    requires
        hs1.len() == hs2.len(),
        0 <= i <= hs1.len(),
        forall|j: int| 0 <= j < hs1.len() ==> #[trigger] eq_ignore_case(hs1[j].0, hs2[j].0),
    ensures
        first_match(hs1, name, i) == first_match(hs2, name, i),
    decreases hs1.len() - i,
{
    if i < hs1.len() {
        let a = hs1[i].0;
        let b = hs2[i].0;
        assert(eq_ignore_case(a, b));
        if eq_ignore_case(a, name) {
            assert forall|k: int| 0 <= k < b.len() implies #[trigger] fold(b[k]) == fold(
                name[k],
            ) by {
                assert(fold(a[k]) == fold(b[k]));
                assert(fold(a[k]) == fold(name[k]));
            }
        }
        if eq_ignore_case(b, name) {
            assert forall|k: int| 0 <= k < a.len() implies #[trigger] fold(a[k]) == fold(
                name[k],
            ) by {
                assert(fold(a[k]) == fold(b[k]));
                assert(fold(b[k]) == fold(name[k]));
            }
        }
        lemma_first_match_case(hs1, hs2, name, i + 1);
    }
}

/// Header names are compared without regard to ASCII case: two requests that
/// differ only in the case of their header names are dispatched alike.
pub proof fn lemma_dispatch_ignores_header_name_case(r1: RequestModel, r2: RequestModel)
    requires
        r1.request_type == r2.request_type,
        r1.request_path == r2.request_path,
        r1.body == r2.body,
        r1.headers.len() == r2.headers.len(),
        forall|j: int|
            0 <= j < r1.headers.len() ==> #[trigger] eq_ignore_case(
                r1.headers[j].0,
                r2.headers[j].0,
            ) && r1.headers[j].1 == r2.headers[j].1,
    ensures
        dispatch_model(r1) == dispatch_model(r2),
{
    assert forall|name: Seq<char>| header_value(r1.headers, name) == header_value(
        r2.headers,
        name,
    ) by {
        lemma_first_match_case(r1.headers, r2.headers, name, 0);
        let k = first_match(r1.headers, name, 0);
        if 0 <= k < r1.headers.len() {
            assert(eq_ignore_case(r1.headers[k].0, r2.headers[k].0));
        }
    }
}

/// A path that no route matches gets an empty 404 without content headers.
pub proof fn lemma_unmatched_is_empty_not_found(req: RequestModel)
    requires
        route_of(req.request_path) == Route::Unmatched,
    ensures
        dispatch_model(req) == DispatchModel::Respond(not_found_model()),
        not_found_model().code == 404,
        not_found_model().body.len() == 0,
        not_found_model().headers.len() == 0,
{
}

/// On the files route a POST writes exactly the request body under the last
/// path segment, a GET of the same path reads that name, and the answer to a
/// read carries the bytes read unchanged; the answer to the write is an empty
/// 201 without content headers.
pub proof fn lemma_files_write_then_read(post: RequestModel, get: RequestModel)
    requires
        post.request_type == HttpRequestType::Post,
        get.request_type == HttpRequestType::Get,
        post.request_path == get.request_path,
        route_of(post.request_path) == Route::Files,
    ensures
        dispatch_model(post) == DispatchModel::WriteFile(
            last_segment(post.request_path),
            body_bytes(post.body),
        ),
        dispatch_model(get) == DispatchModel::ReadFile(last_segment(post.request_path)),
        file_model(body_bytes(post.body)).body == body_bytes(post.body),
        file_model(body_bytes(post.body)).code == 200,
        created_model().code == code_of(HttpStatusCode::Created),
        created_model().body.len() == 0,
        created_model().headers.len() == 0,
{
}

/// However many units are submitted, each one is at every moment in exactly
/// one place (queued, held by exactly one worker, or finished), so none is
/// dropped and none is run by two workers at once.
pub proof fn lemma_every_unit_accounted(p: PoolModel)
    requires
        pool_wf(p),
    ensures
        forall|id: u64|
            id < p.next_id ==> (#[trigger] p.queue.contains(id) && !running(p, id)
                && !p.finished.contains(id)) || (!p.queue.contains(id) && running(p, id)
                && !p.finished.contains(id)) || (!p.queue.contains(id) && !running(p, id)
                && p.finished.contains(id)),
        forall|w1: int, w2: int, id: u64|
            #[trigger] runs(p, w1, id) && #[trigger] runs(p, w2, id) ==> w1 == w2,
{
    assert forall|id: u64| id < p.next_id implies (#[trigger] p.queue.contains(id) && !running(
        p,
        id,
    ) && !p.finished.contains(id)) || (!p.queue.contains(id) && running(p, id)
        && !p.finished.contains(id)) || (!p.queue.contains(id) && !running(p, id)
        && p.finished.contains(id)) by {
        if running(p, id) {
            let w = choose|w: int| runs(p, w, id);
            assert(runs(p, w, id));
        }
        if p.queue.contains(id) {
            let i = choose|i: int| 0 <= i < p.queue.len() && p.queue[i] == id;
            assert(!p.finished.contains(p.queue[i]));
        }
    }
}

/// What serving a request does, given the served directory as a map from file
/// name to contents: a read answers from the map, a write that succeeds
/// stores the bytes under the name.
pub open spec fn serve_with_files(fs: Map<Seq<char>, Seq<u8>>, req: RequestModel) -> (
    ResponseModel,
    Map<Seq<char>, Seq<u8>>,
) {
    match dispatch_model(req) {
        DispatchModel::Respond(m) => (m, fs),
        DispatchModel::ReadFile(n) => (
            if fs.contains_key(n) {
                file_model(fs[n])
            } else {
                not_found_model()
            },
            fs,
        ),
        DispatchModel::WriteFile(n, b) => (created_model(), fs.insert(n, b)),
    }
}

/// A GET on the files route answers with the file's bytes unchanged, typed as
/// an octet stream (with its length where it is not empty), or with an empty
/// 404 where the file is absent; either way nothing is written.
pub proof fn lemma_files_get(fs: Map<Seq<char>, Seq<u8>>, get: RequestModel)
    requires
        get.request_type == HttpRequestType::Get,
        route_of(get.request_path) == Route::Files,
    ensures
        ({
            let (resp, after) = serve_with_files(fs, get);
            let name = last_segment(get.request_path);
            &&& after == fs
            &&& fs.contains_key(name) ==> resp.code == 200 && resp.body == fs[name]
            &&& fs.contains_key(name) && fs[name].len() > 0 ==> resp.headers == seq![
                ("Content-Type"@, "application/octet-stream"@),
                ("Content-Length"@, decimal(fs[name].len())),
            ]
            &&& !fs.contains_key(name) ==> resp.code == 404 && resp.body.len() == 0
                && resp.headers.len() == 0
        }),
{
    let name = last_segment(get.request_path);
    if fs.contains_key(name) && fs[name].len() > 0 {
        assert(file_model(fs[name]).headers =~= seq![
            ("Content-Type"@, "application/octet-stream"@),
            ("Content-Length"@, decimal(fs[name].len())),
        ]);
    }
}

/// A POST of body B on the files route answers with an empty 201 without
/// content headers, and a GET of the same path afterwards answers with B's
/// bytes unchanged.
pub proof fn lemma_files_post_then_get(
    fs: Map<Seq<char>, Seq<u8>>,
    post: RequestModel,
    get: RequestModel,
)
    requires
        post.request_type == HttpRequestType::Post,
        get.request_type == HttpRequestType::Get,
        post.request_path == get.request_path,
        route_of(post.request_path) == Route::Files,
    ensures
        ({
            let (created, fs1) = serve_with_files(fs, post);
            let (read, fs2) = serve_with_files(fs1, get);
            &&& created.code == 201
            &&& created.body.len() == 0
            &&& created.headers.len() == 0
            &&& read.code == 200
            &&& read.body == body_bytes(post.body)
            &&& fs2 == fs1
        }),
{
    let name = last_segment(post.request_path);
    assert(serve_with_files(fs, post).1.contains_key(name));
}

/// The pool after the idle workers `ws`, in turn, each take the oldest queued unit.
pub open spec fn after_takes(m: PoolModel, ws: Seq<int>) -> PoolModel
    decreases ws.len(),
{
    if ws.len() == 0 {
        m
    } else {
        after_take(after_takes(m, ws.drop_last()), ws.last())
    }
}

/// Saturation drops nothing: units are handed out oldest first, one per request
/// of an idle worker, so after `n` such requests the first `n` queued units
/// have been taken (the unit at position `i` by worker `ws[i]`) and the rest
/// wait in their order.
pub proof fn lemma_units_served_in_order(m: PoolModel, ws: Seq<int>)
    requires
        ws.len() <= m.queue.len(),
        forall|j: int, k: int| 0 <= j < k < ws.len() ==> ws[j] != ws[k],
        forall|j: int| 0 <= j < ws.len() ==> 0 <= #[trigger] ws[j] < m.workers.len(),
    ensures
        after_takes(m, ws).queue == m.queue.subrange(ws.len() as int, m.queue.len() as int),
        forall|j: int|
            0 <= j < ws.len() ==> #[trigger] after_takes(m, ws).workers[ws[j]]
                == WorkerState::Executing(m.queue[j]),
        after_takes(m, ws).workers.len() == m.workers.len(),
    decreases ws.len(),
{
    if ws.len() > 0 {
        let prev = ws.drop_last();
        lemma_units_served_in_order(m, prev);
        let p = after_takes(m, prev);
        let n = ws.len() - 1;
        assert(p.queue[0] == m.queue[n]);
        assert(after_take(p, ws.last()).queue =~= m.queue.subrange(
            ws.len() as int,
            m.queue.len() as int,
        ));
        assert forall|j: int| 0 <= j < ws.len() implies #[trigger] after_takes(m, ws).workers[ws[j]]
            == WorkerState::Executing(m.queue[j]) by {
            if j < n {
                assert(prev[j] == ws[j]);
                assert(ws[j] != ws[n]);
            }
        }
    }
}

} // verus!
