//! Laws of the document service.

use vstd::prelude::*;

use crate::headers::{copy_except, is_field_safe, visible_text};
use crate::web_document::{
    asset_response, forward, gated_index, handle, has_foreign_origin, host_response,
    is_static_path, mime_of, root_relative, serve_static, text_response, AssetRead, DocumentResponse, ForwardStep,
    HostReply, Route, StaticStep,
};

verus! {

/// The boot gate.
pub open spec fn gate() -> Seq<char> {
    "<script>globalThis.__DSH_BOOT_READY__ = Promise.withResolvers()</script>"@
}

/// `parts` with a separator ahead of each.
pub open spec fn slashed(parts: Seq<Seq<char>>) -> Seq<char>
    decreases parts.len(),
{
    if parts.len() == 0 {
        seq![]
    } else {
        slashed(parts.drop_last()) + seq!['/'] + parts.last()
    }
}

/// The name of something in a directory: no separator in it, and not the
/// directory itself or its parent.
pub open spec fn plain_part(part: Seq<char>) -> bool {
    part.len() > 0 && !part.contains('/') && part != seq!['.'] && part != seq!['.', '.']
}

/// `headers` is a content type and nothing else.
pub open spec fn content_type_alone(
    headers: http::HeaderMap<http::HeaderValue>,
    mime: Seq<char>,
) -> bool {
    &&& crate::headers::header_values(headers, "content-type"@) == seq![
        (vstd::utf8::encode_utf8(mime), false),
    ]
    &&& forall|name: Seq<char>|
        name != "content-type"@ ==> #[trigger] crate::headers::header_values(headers, name).len()
            == 0
}

/// `response` is an empty plain text with this status.
pub open spec fn empty_answer(response: DocumentResponse, status: u16) -> bool {
    &&& response.status == status
    &&& response.body@.len() == 0
    &&& content_type_alone(response.headers, "text/plain; charset=utf-8"@)
}

/// The values of a name are those of its fields, in order.
pub proof fn law_values_are_those_of_the_name(
    fields: Seq<(Seq<char>, Seq<u8>, bool)>,
    field: (Seq<char>, Seq<u8>, bool),
    name: Seq<char>,
)
    ensures
        crate::headers::values_of(seq![], name).len() == 0,
        crate::headers::values_of(fields.push(field), name) == (if field.0 == name {
            crate::headers::values_of(fields, name).push((field.1, field.2))
        } else {
            crate::headers::values_of(fields, name)
        }),
{
    assert(fields.push(field).drop_last() =~= fields);
}

/// A field value is read where all of its bytes are visible ASCII or tabs, and
/// then as the text with those bytes.
pub proof fn law_visible_values_are_read(bytes: &Vec<u8>, text: Option<String>)
    requires
        call_ensures(visible_text, (bytes,), text),
    ensures
        text is Some <==> forall|i: int|
            0 <= i < bytes@.len() ==> 32 <= #[trigger] bytes@[i] < 127 || bytes@[i] == 9,
        text matches Some(found) ==> {
            &&& found@.len() == bytes@.len()
            &&& forall|i: int|
                0 <= i < bytes@.len() ==> #[trigger] found@[i] == bytes@[i] as char
        },
{
    if text is Some {
        assert forall|i: int| 0 <= i < bytes@.len() implies 32 <= #[trigger] bytes@[i] < 127
            || bytes@[i] == 9 by {
            assert(crate::headers::visible_byte(bytes@[i]));
        }
    }
}

/// A text can stand as a field value where its bytes hold no control character
/// but tabs.
pub proof fn law_control_characters_are_unsafe(text: &str, safe: bool)
    requires
        call_ensures(is_field_safe, (text,), safe),
    ensures
        safe <==> forall|i: int|
            0 <= i < vstd::utf8::encode_utf8(text@).len() ==> {
                let byte = #[trigger] vstd::utf8::encode_utf8(text@)[i];
                byte == 9 || (byte >= 32 && byte != 127)
            },
{
    if safe {
        assert forall|i: int| 0 <= i < vstd::utf8::encode_utf8(text@).len() implies {
            let byte = #[trigger] vstd::utf8::encode_utf8(text@)[i];
            byte == 9 || (byte >= 32 && byte != 127)
        } by {
            assert(crate::headers::value_byte(vstd::utf8::encode_utf8(text@)[i]));
        }
    }
}

/// A copy has every value of every field that is not dropped, and none of those
/// that are.
pub proof fn law_copies_lose_only_the_dropped(
    from: &http::HeaderMap<http::HeaderValue>,
    dropped: &[&'static str],
    copied: Option<http::HeaderMap<http::HeaderValue>>,
    name: Seq<char>,
)
    requires
        call_ensures(copy_except, (from, dropped), copied),
    ensures
        crate::headers::header_fields(*from).len() <= 6553 ==> copied is Some,
        copied matches Some(to) ==> {
            &&& (exists|i: int| 0 <= i < dropped@.len() && #[trigger] dropped@[i]@ == name)
                ==> crate::headers::header_values(to, name).len() == 0
            &&& !(exists|i: int| 0 <= i < dropped@.len() && #[trigger] dropped@[i]@ == name)
                ==> crate::headers::header_values(to, name) == crate::headers::header_values(
                *from,
                name,
            )
        },
{
    crate::headers::lemma_kept_at_most(crate::headers::header_fields(*from), dropped@);
}

/// The media type of a file goes by its extension, whatever its directory and
/// the rest of its name.
pub proof fn law_media_types_go_by_extension(
    path: &str,
    front: Seq<char>,
    stem: Seq<char>,
    ext: Seq<char>,
    mime: &'static str,
)
    requires
        call_ensures(mime_of, (path,), mime),
        front.len() > 0 ==> front.last() == '/',
        stem.len() > 0,
        !stem.contains('/'),
        ext.len() > 0,
        !ext.contains('/'),
        !ext.contains('.'),
        path@ == front + stem + seq!['.'] + ext,
    ensures
        mime@ == media_type(ext),
{
    crate::laws::paths::lemma_extension(front, stem, ext);
}

/// The media type of each known extension.
pub open spec fn media_type(ext: Seq<char>) -> Seq<char> {
    if ext == "html"@ {
        "text/html; charset=utf-8"@
    } else if ext == "js"@ || ext == "mjs"@ {
        "text/javascript; charset=utf-8"@
    } else if ext == "css"@ {
        "text/css; charset=utf-8"@
    } else if ext == "svg"@ {
        "image/svg+xml"@
    } else if ext == "json"@ || ext == "webmanifest"@ {
        "application/json"@
    } else if ext == "woff2"@ {
        "font/woff2"@
    } else if ext == "png"@ {
        "image/png"@
    } else if ext == "ico"@ {
        "image/x-icon"@
    } else {
        "application/octet-stream"@
    }
}

/// A file without an extension is a stream of bytes.
pub proof fn law_no_extension_is_bytes(
    path: &str,
    front: Seq<char>,
    name: Seq<char>,
    mime: &'static str,
)
    requires
        call_ensures(mime_of, (path,), mime),
        front.len() > 0 ==> front.last() == '/',
        name.len() > 0,
        !name.contains('/'),
        !name.drop_first().contains('.'),
        name != seq!['.'],
        path@ == front + name,
    ensures
        mime@ == "application/octet-stream"@,
{
    crate::laws::paths::lemma_no_extension(front, name);
}

/// A text answer has its status, its text and a content type.
pub proof fn law_text_answers(status: u16, body: &str, response: DocumentResponse)
    requires
        call_ensures(text_response, (status, body), response),
    ensures
        response.status == status,
        response.body@ == vstd::utf8::encode_utf8(body@),
        content_type_alone(response.headers, "text/plain; charset=utf-8"@),
{
}

proof fn lemma_segments_concat(first: Seq<char>, second: Seq<char>)
    ensures
        crate::web_document::segments(first + seq!['/'] + second) == crate::web_document::segments(
            first,
        ) + crate::web_document::segments(second),
    decreases second.len(),
{
    let whole = first + seq!['/'] + second;
    let front = crate::web_document::segments(first);
    if second.len() == 0 {
        assert(whole.drop_last() =~= first);
        assert(front.push(seq![]) =~= front + crate::web_document::segments(second));
    } else {
        let shorter = second.drop_last();
        lemma_segments_concat(first, shorter);
        crate::web_document::lemma_some_part(shorter);
        assert(whole.drop_last() =~= first + seq!['/'] + shorter);
        assert(whole.last() == second.last());
        let back = crate::web_document::segments(shorter);
        assert((front + back).last() == back.last());
        assert(crate::web_document::segments(whole) =~= front + crate::web_document::segments(
            second,
        ));
    }
}

proof fn lemma_descended_concat(base: Seq<char>, first: Seq<Seq<char>>, second: Seq<Seq<char>>)
    ensures
        crate::web_document::descended(base, first + second) == crate::web_document::descended(
            crate::web_document::descended(base, first),
            second,
        ),
    decreases second.len(),
{
    if second.len() == 0 {
        assert(first + second =~= first);
    } else {
        assert((first + second).drop_last() =~= first + second.drop_last());
        lemma_descended_concat(base, first, second.drop_last());
    }
}

proof fn lemma_segments_slashed(parts: Seq<Seq<char>>)
    requires
        forall|i: int| 0 <= i < parts.len() ==> !(#[trigger] parts[i]).contains('/'),
    ensures
        crate::web_document::segments(slashed(parts)) == seq![Seq::<char>::empty()] + parts,
    decreases parts.len(),
{
    let start = seq![Seq::<char>::empty()];
    if parts.len() == 0 {
        assert(start + parts =~= start);
        assert(crate::web_document::segments(slashed(parts)) =~= start);
    } else {
        let earlier = parts.drop_last();
        assert forall|i: int| 0 <= i < earlier.len() implies !(#[trigger] earlier[i]).contains(
            '/',
        ) by {
            assert(earlier[i] == parts[i]);
        }
        lemma_segments_slashed(earlier);
        assert(!parts[parts.len() - 1].contains('/'));
        lemma_segments_concat(slashed(earlier), parts.last());
        crate::web_document::lemma_segments_single(parts.last());
        assert(start + earlier + seq![parts.last()] =~= start + parts);
    }
}

proof fn lemma_descended_slashed(root: Seq<char>, parts: Seq<Seq<char>>)
    requires
        root.len() > 0,
        root.last() != '/',
        forall|i: int| 0 <= i < parts.len() ==> plain_part(#[trigger] parts[i]),
    ensures
        crate::web_document::descended(root, seq![Seq::<char>::empty()] + parts) == root + slashed(
            parts,
        ),
        (root + slashed(parts)).last() != '/',
    decreases parts.len(),
{
    let start = seq![Seq::<char>::empty()];
    if parts.len() == 0 {
        assert(start + parts =~= start);
        assert(start.drop_last() =~= Seq::<Seq<char>>::empty());
        reveal_with_fuel(crate::web_document::descended, 2);
        assert(root + slashed(parts) =~= root);
    } else {
        let earlier = parts.drop_last();
        let part = parts.last();
        assert forall|i: int| 0 <= i < earlier.len() implies plain_part(#[trigger] earlier[i]) by {
            assert(earlier[i] == parts[i]);
        }
        lemma_descended_slashed(root, earlier);
        assert(plain_part(parts[parts.len() - 1]));
        assert((start + parts).drop_last() =~= start + earlier);
        assert((start + parts).last() == part);
        assert(part[0] != '/' && part[part.len() - 1] != '/');
        let upper = root + slashed(earlier);
        assert(upper.push('/') + part =~= root + slashed(parts));
        assert((root + slashed(parts)).last() == part.last());
    }
}

proof fn lemma_clean(root: Seq<char>, parts: Seq<Seq<char>>)
    requires
        root.len() > 0,
        root.last() != '/',
        forall|i: int| 0 <= i < parts.len() ==> plain_part(#[trigger] parts[i]),
    ensures
        !crate::web_document::climbs(slashed(parts)),
        crate::web_document::descended(root, crate::web_document::segments(slashed(parts))) == root
            + slashed(parts),
{
    assert forall|i: int| 0 <= i < parts.len() implies !(#[trigger] parts[i]).contains('/') by {
        assert(plain_part(parts[i]));
    }
    lemma_segments_slashed(parts);
    lemma_descended_slashed(root, parts);
    let climb: Seq<char> = seq!['.', '.'];
    let all = seq![Seq::<char>::empty()] + parts;
    if all.contains(climb) {
        let k = choose|k: int| 0 <= k < all.len() && all[k] == climb;
        if k == 0 {
            assert(all[k].len() == 0);
        } else {
            assert(plain_part(parts[k - 1]));
        }
    }
}

/// A path of plain names is found below the root at exactly that path.
pub proof fn law_clean_paths_are_found(
    root: &str,
    pathname: &str,
    parts: Seq<Seq<char>>,
    target: Option<String>,
)
    requires
        call_ensures(root_relative, (root, pathname), target),
        root@.len() > 0,
        root@.last() != '/',
        forall|i: int| 0 <= i < parts.len() ==> plain_part(#[trigger] parts[i]),
        pathname@ == slashed(parts),
    ensures
        target matches Some(path) && path@ == root@ + pathname@,
{
    lemma_clean(root@, parts);
}

/// Components that stay where they are make no difference: an empty one or `.`
/// between two others can as well be left out.
pub proof fn law_idle_components_do_not_matter(
    root: &str,
    idle: &str,
    short: &str,
    first: Seq<char>,
    second: Seq<char>,
    of_idle: Option<String>,
    of_short: Option<String>,
)
    requires
        call_ensures(root_relative, (root, idle), of_idle),
        call_ensures(root_relative, (root, short), of_short),
        short@ == first + seq!['/'] + second,
        idle@ == first + seq!['/'] + seq!['/'] + second || idle@ == first + seq!['/', '.', '/']
            + second,
    ensures
        of_idle is Some <==> of_short is Some,
        of_idle matches Some(path) ==> path@ == of_short->0@,
{
    let part: Seq<char> = if idle@ == first + seq!['/'] + seq!['/'] + second {
        seq![]
    } else {
        seq!['.']
    };
    assert(idle@ =~= first + seq!['/'] + (part + seq!['/'] + second));
    lemma_segments_concat(first, second);
    lemma_segments_concat(part, second);
    lemma_segments_concat(first, part + seq!['/'] + second);
    assert(!part.contains('/'));
    crate::web_document::lemma_segments_single(part);
    let front = crate::web_document::segments(first);
    let back = crate::web_document::segments(second);
    let climb: Seq<char> = seq!['.', '.'];
    let longer = front + (seq![part] + back);
    let shorter = front + back;
    lemma_descended_concat(root@, front, seq![part] + back);
    lemma_descended_concat(root@, front, back);
    let upper = crate::web_document::descended(root@, front);
    lemma_descended_concat(upper, seq![part], back);
    assert(seq![part].drop_last() =~= Seq::<Seq<char>>::empty());
    reveal_with_fuel(crate::web_document::descended, 2);
    assert(crate::web_document::descended(upper, seq![part]) == upper);
    assert(longer.contains(climb) <==> shorter.contains(climb)) by {
        assert(part.len() < 2);
        if longer.contains(climb) {
            let k = choose|k: int| 0 <= k < longer.len() && longer[k] == climb;
            if k < front.len() {
                assert(shorter[k] == climb);
            } else if k > front.len() {
                assert(shorter[k - 1] == climb);
            } else {
                assert(longer[k] == part);
            }
        }
        if shorter.contains(climb) {
            let k = choose|k: int| 0 <= k < shorter.len() && shorter[k] == climb;
            if k < front.len() {
                assert(longer[k] == climb);
            } else {
                assert(longer[k + 1] == climb);
            }
        }
    }
}

/// The last part of a path stands at its end, behind a separator or the start.
proof fn lemma_last_part(path: Seq<char>) -> (front: Seq<char>)
    ensures
        crate::web_document::segments(path).len() > 0,
        path == front + crate::web_document::segments(path).last(),
        front.len() > 0 ==> front.last() == '/',
    decreases path.len(),
{
    let parts = crate::web_document::segments(path);
    if path.len() == 0 {
        assert(path =~= path + parts.last());
        path
    } else if path.last() == '/' {
        assert(path =~= path + parts.last());
        path
    } else {
        let shorter = path.drop_last();
        let front = lemma_last_part(shorter);
        let ending = crate::web_document::segments(shorter).last();
        assert(parts.last() == ending.push(path.last()));
        assert(path =~= shorter.push(path.last()));
        assert(path =~= front + parts.last());
        front
    }
}

/// Every part of a path stands between separators or the ends.
proof fn lemma_part_stands(path: Seq<char>, at: int) -> (around: (Seq<char>, Seq<char>))
    requires
        0 <= at < crate::web_document::segments(path).len(),
    ensures
        path == around.0 + crate::web_document::segments(path)[at] + around.1,
        around.0.len() > 0 ==> around.0.last() == '/',
        around.1.len() > 0 ==> around.1[0] == '/',
        at < crate::web_document::segments(path).len() - 1 ==> around.1.len() > 0,
    decreases path.len(),
{
    let parts = crate::web_document::segments(path);
    if at == parts.len() - 1 {
        let front = lemma_last_part(path);
        assert(path =~= front + parts[at] + Seq::<char>::empty());
        (front, seq![])
    } else {
        let shorter = path.drop_last();
        crate::web_document::lemma_some_part(shorter);
        if at == crate::web_document::segments(shorter).len() - 1 {
            let front = lemma_last_part(shorter);
            assert(path =~= front + parts[at] + seq!['/']);
            (front, seq!['/'])
        } else {
            let (front, back) = lemma_part_stands(shorter, at);
            assert(parts[at] == crate::web_document::segments(shorter)[at]);
            assert(path =~= shorter.push(path.last()));
            assert(path =~= front + parts[at] + back.push(path.last()));
            (front, back.push(path.last()))
        }
    }
}

/// `path` has a component that climbs to the parent directory.
pub open spec fn holds_climb(path: Seq<char>, front: Seq<char>, back: Seq<char>) -> bool {
    &&& path == front + seq!['.', '.'] + back
    &&& front.len() > 0 ==> front.last() == '/'
    &&& back.len() > 0 ==> back[0] == '/'
}

proof fn lemma_climbs(path: Seq<char>)
    ensures
        crate::web_document::climbs(path) <==> exists|front: Seq<char>, back: Seq<char>|
            holds_climb(path, front, back),
{
    let climb: Seq<char> = seq!['.', '.'];
    let parts = crate::web_document::segments(path);
    if parts.contains(climb) {
        let k = choose|k: int| 0 <= k < parts.len() && parts[k] == climb;
        let (front, back) = lemma_part_stands(path, k);
        assert(holds_climb(path, front, back));
    }
    if exists|front: Seq<char>, back: Seq<char>| holds_climb(path, front, back) {
        let (front, back) = choose|front: Seq<char>, back: Seq<char>|
            holds_climb(path, front, back);
        assert(!climb.contains('/'));
        crate::web_document::lemma_segments_single(climb);
        let rest = climb + back;
        if back.len() > 0 {
            let behind = back.drop_first();
            assert(rest =~= climb + seq!['/'] + behind);
            lemma_segments_concat(climb, behind);
        } else {
            assert(rest =~= climb);
        }
        assert(crate::web_document::segments(rest)[0] == climb);
        crate::web_document::lemma_some_part(rest);
        if front.len() > 0 {
            let dir = front.drop_last();
            assert(path =~= dir + seq!['/'] + rest);
            lemma_segments_concat(dir, rest);
            let before = crate::web_document::segments(dir).len() as int;
            assert(parts[before] == climb);
        } else {
            assert(path =~= rest);
            assert(parts[0] == climb);
        }
    }
}

/// A path is refused where one of its components is `..`, and only there.
pub proof fn law_only_climbing_paths_are_refused(
    root: &str,
    pathname: &str,
    target: Option<String>,
)
    requires
        call_ensures(root_relative, (root, pathname), target),
    ensures
        target is None <==> exists|front: Seq<char>, back: Seq<char>|
            holds_climb(pathname@, front, back),
{
    lemma_climbs(pathname@);
}

/// The client document answers for its few paths and for everything below
/// `/assets/`, and for nothing else.
pub proof fn law_static_paths(pathname: &str, holds: bool)
    requires
        call_ensures(is_static_path, (pathname,), holds),
    ensures
        holds <==> pathname@ == "/"@ || pathname@ == "/index.html"@ || pathname@
            == "/favicon.svg"@ || pathname@ == "/manifest.webmanifest"@ || exists|rest: Seq<char>|
            pathname@ == #[trigger] ("/assets/"@ + rest),
{
    lemma_assets(pathname@);
}

proof fn lemma_assets(path: Seq<char>)
    ensures
        crate::text::begins_with(path, "/assets/"@) <==> exists|rest: Seq<char>|
            path == #[trigger] ("/assets/"@ + rest),
{
    let front = "/assets/"@;
    if crate::text::begins_with(path, front) {
        assert(path =~= front + path.skip(front.len() as int));
    }
    if exists|rest: Seq<char>| path == #[trigger] (front + rest) {
        let rest = choose|rest: Seq<char>| path == #[trigger] (front + rest);
        assert(path.take(front.len() as int) =~= front);
    }
}

/// Every request goes to the client document or to the Host at its own path; an
/// empty path is the root of the document.
pub proof fn law_requests_keep_their_path(path: &str, route: Route)
    requires
        call_ensures(handle, (path,), route),
    ensures
        path@.len() == 0 || path@ == "/"@ ==> (route matches Route::Static(at) && at@ == "/"@),
        path@ == "/index.html"@ || path@ == "/favicon.svg"@ || path@ == "/manifest.webmanifest"@
            ==> (route matches Route::Static(at) && at@ == path@),
        forall|rest: Seq<char>|
            path@ == #[trigger] ("/assets/"@ + rest) ==> (route matches Route::Static(at) && at@
                == path@),
        path@.len() > 0 && path@ != "/"@ && path@ != "/index.html"@ && path@ != "/favicon.svg"@
            && path@ != "/manifest.webmanifest"@ && !(exists|rest: Seq<char>|
            path@ == #[trigger] ("/assets/"@ + rest)) ==> (route matches Route::Forward(at) && at@
            == path@),
{
    reveal_strlit("/assets/");
    reveal_strlit("/index.html");
    reveal_strlit("/favicon.svg");
    reveal_strlit("/manifest.webmanifest");
    lemma_assets(path@);
    assert forall|rest: Seq<char>| path@ == #[trigger] ("/assets/"@ + rest) implies (
    route matches Route::Static(at) && at@ == path@) by {
        assert(path@.len() >= 8);
    }
}

/// A static request is refused for its method first, then for a path that
/// climbs; every other one reads the file at its path below the root, and the
/// root of the document reads the index.
pub proof fn law_static_requests(
    dist: &str,
    method: &str,
    pathname: &str,
    parts: Seq<Seq<char>>,
    step: StaticStep,
)
    requires
        call_ensures(serve_static, (dist, method, pathname), step),
    ensures
        method@ != "GET"@ && method@ != "HEAD"@ ==> (step matches StaticStep::Answer(response)
            && empty_answer(response, 405)),
        (method@ == "GET"@ || method@ == "HEAD"@) && (exists|front: Seq<char>, back: Seq<char>|
            holds_climb(pathname@, front, back)) ==> (step matches StaticStep::Answer(response)
            && empty_answer(response, 403)),
        (method@ == "GET"@ || method@ == "HEAD"@) && dist@.len() > 0 && dist@.last() != '/'
            && pathname@ == "/"@ ==> (step matches StaticStep::Read(target) && target@ == dist@
            + "/index.html"@),
        (method@ == "GET"@ || method@ == "HEAD"@) && dist@.len() > 0 && dist@.last() != '/' && (
        forall|i: int| 0 <= i < parts.len() ==> plain_part(#[trigger] parts[i])) && parts.len() > 0
            && pathname@ == slashed(parts) ==> (step matches StaticStep::Read(target) && target@
            == dist@ + pathname@),
{
    reveal_strlit("/");
    reveal_strlit("/index.html");
    reveal_strlit("index.html");
    lemma_climbs(pathname@);
    let name = "index.html"@;
    assert(!name.contains('/'));
    assert(plain_part(name));
    let index = seq![name];
    assert(index.drop_last() =~= Seq::<Seq<char>>::empty());
    reveal_with_fuel(slashed, 2);
    assert(slashed(index) =~= "/index.html"@);
    if dist@.len() > 0 && dist@.last() != '/' {
        lemma_clean(dist@, index);
        if (forall|i: int| 0 <= i < parts.len() ==> plain_part(#[trigger] parts[i])) && parts.len()
            > 0 && pathname@ == slashed(parts) {
            lemma_clean(dist@, parts);
            assert(plain_part(parts[parts.len() - 1]));
            assert(pathname@.len() > 1);
        }
    }
    if exists|front: Seq<char>, back: Seq<char>| holds_climb(pathname@, front, back) {
        assert(pathname@.len() > 1);
    }
}

proof fn lemma_gated(document: Seq<char>, at: int)
    requires
        0 <= at,
        at + 6 <= document.len(),
        document.skip(at).take(6) == "<head>"@,
        forall|j: int| 0 <= j < at ==> (#[trigger] document.skip(j)).take(6) != "<head>"@,
    ensures
        crate::web_document::gated(document) == document.take(at + 6) + gate() + document.skip(
            at + 6,
        ),
{
    reveal_strlit("<head>");
    let head = "<head>"@;
    crate::laws::text::lemma_found_at(document, head, 0, at);
    assert forall|i: int| at <= i < at + 6 implies document[i] == #[trigger] head[i - at] by {
        assert(document.skip(at).take(6)[i - at] == document[i]);
    }
    assert(document.take(at) + head =~= document.take(at + 6));
    assert(crate::web_document::gated(document) =~= document.take(at + 6) + gate() + document.skip(
        at + 6,
    ));
}

/// Wherever the first `<head>` of a document stands, the boot gate is put
/// directly behind it and everything else is kept.
pub proof fn law_the_gate_stands_behind_the_head(document: &str, at: int, served: String)
    requires
        call_ensures(gated_index, (document,), served),
        0 <= at,
        at + 6 <= document@.len(),
        document@.skip(at).take(6) == "<head>"@,
        forall|j: int| 0 <= j < at ==> (#[trigger] document@.skip(j)).take(6) != "<head>"@,
    ensures
        served@ == document@.take(at + 6) + gate() + document@.skip(at + 6),
{
    lemma_gated(document@, at);
}

/// A document that holds no `<head>` is served as it is.
pub proof fn law_no_head_no_gate(document: &str, served: String)
    requires
        call_ensures(gated_index, (document,), served),
        forall|j: int|
            0 <= j && j + 6 <= document@.len() ==> (#[trigger] document@.skip(j)).take(6)
                != "<head>"@,
    ensures
        served@ == document@,
{
    reveal_strlit("<head>");
    crate::laws::text::lemma_found_nowhere(document@, "<head>"@, 0);
}

/// The index is served as an HTML document with the boot gate behind its first
/// `<head>`, wherever that stands in it.
pub proof fn law_the_index_is_served_with_the_gate(
    method: &str,
    pathname: &str,
    target: &str,
    front: Seq<char>,
    bytes: Vec<u8>,
    document: Seq<char>,
    at: int,
    response: DocumentResponse,
)
    requires
        call_ensures(
            asset_response,
            (method, pathname, target, AssetRead::Bytes(bytes)),
            response,
        ),
        method@ != "HEAD"@,
        pathname@ == "/"@ || pathname@ == "/index.html"@,
        front.len() > 0 ==> front.last() == '/',
        target@ == front + "index.html"@,
        bytes@ == vstd::utf8::encode_utf8(document),
        0 <= at,
        at + 6 <= document.len(),
        document.skip(at).take(6) == "<head>"@,
        forall|j: int| 0 <= j < at ==> (#[trigger] document.skip(j)).take(6) != "<head>"@,
    ensures
        response.status == 200,
        content_type_alone(response.headers, "text/html; charset=utf-8"@),
        response.body@ == vstd::utf8::encode_utf8(
            document.take(at + 6) + gate() + document.skip(at + 6),
        ),
{
    lemma_gated(document, at);
    vstd::utf8::encode_utf8_valid_utf8(document);
    vstd::utf8::encode_utf8_decode_utf8(document);
    reveal_strlit("index.html");
    reveal_strlit("html");
    reveal_strlit("index");
    let ext = "html"@;
    assert(!ext.contains('.') && !ext.contains('/'));
    assert(!"index"@.contains('/'));
    assert(target@ =~= front + "index"@ + seq!['.'] + ext);
    crate::laws::paths::lemma_extension(front, "index"@, ext);
}

/// Every other asset is served byte for byte, a request for the head alone gets
/// no body, and the media type goes by the file in each case.
pub proof fn law_assets_are_served_whole(
    method: &str,
    pathname: &str,
    target: &str,
    front: Seq<char>,
    stem: Seq<char>,
    ext: Seq<char>,
    bytes: Vec<u8>,
    response: DocumentResponse,
)
    requires
        call_ensures(
            asset_response,
            (method, pathname, target, AssetRead::Bytes(bytes)),
            response,
        ),
    ensures
        response.status == 200,
        method@ == "HEAD"@ ==> response.body@.len() == 0,
        method@ != "HEAD"@ && pathname@ != "/"@ && pathname@ != "/index.html"@ ==> response.body@
            == bytes@,
        (front.len() > 0 ==> front.last() == '/') && stem.len() > 0 && !stem.contains('/')
            && ext.len() > 0 && !ext.contains('/') && !ext.contains('.') && target@ == front + stem
            + seq!['.'] + ext ==> content_type_alone(response.headers, media_type(ext)),
{
    if (front.len() > 0 ==> front.last() == '/') && stem.len() > 0 && !stem.contains('/')
        && ext.len() > 0 && !ext.contains('/') && !ext.contains('.') && target@ == front + stem
        + seq!['.'] + ext {
        crate::laws::paths::lemma_extension(front, stem, ext);
    }
}

/// A file that is not there and one that cannot be read are told apart.
pub proof fn law_failed_reads(
    method: &str,
    pathname: &str,
    target: &str,
    missing: DocumentResponse,
    failed: DocumentResponse,
)
    requires
        call_ensures(asset_response, (method, pathname, target, AssetRead::NotFound), missing),
        call_ensures(asset_response, (method, pathname, target, AssetRead::Failed), failed),
    ensures
        empty_answer(missing, 404),
        empty_answer(failed, 500),
{
}

/// The first of the page's origins decides whether a request is refused, ahead
/// of all else; without one a request is not refused for it.
pub proof fn law_origins_decide_first(
    connection: &Option<(String, String)>,
    method: &str,
    headers: &http::HeaderMap<http::HeaderValue>,
    pathname: &str,
    query: Option<&str>,
    body: Vec<u8>,
    step: ForwardStep,
)
    requires
        call_ensures(forward, (connection, method, headers, pathname, query, body), step),
    ensures
        ({
            let origins = crate::headers::header_values(*headers, "origin"@);
            let foreign = origins.len() > 0 && origins[0].0 != vstd::utf8::encode_utf8(
                "dsh-app://app"@,
            );
            &&& foreign ==> (step matches ForwardStep::Answer(response) && empty_answer(
                response,
                403,
            ))
            &&& !foreign && connection is None ==> (step matches ForwardStep::Answer(response)
                && empty_answer(response, 503))
            &&& !foreign && connection is Some ==> step !is Answer
        }),
{
}

/// An origin is foreign where the first one is not the application's.
pub proof fn law_one_origin_is_at_home(
    headers: &http::HeaderMap<http::HeaderValue>,
    foreign: bool,
)
    requires
        call_ensures(has_foreign_origin, (headers,), foreign),
    ensures
        foreign <==> crate::headers::header_values(*headers, "origin"@).len() > 0
            && crate::headers::header_values(*headers, "origin"@)[0].0 != vstd::utf8::encode_utf8(
            "dsh-app://app"@,
        ),
{
}

/// A forwarded request reaches the Host whole: its method, its body, its path
/// and every character of its query are the page's, and so is every value of
/// every field but the five that the shell replaces.
pub proof fn law_requests_reach_the_host_whole(
    connection: &Option<(String, String)>,
    method: &str,
    headers: &http::HeaderMap<http::HeaderValue>,
    pathname: &str,
    query: Option<&str>,
    body: Vec<u8>,
    step: ForwardStep,
)
    requires
        call_ensures(forward, (connection, method, headers, pathname, query, body), step),
    ensures
        step matches ForwardStep::Send(request) ==> {
            &&& connection matches Some((origin, cookie))
            &&& request.method@ == method@
            &&& request.body@ == body@
            &&& query matches Some(text) ==> request.url@ == origin@ + pathname@ + seq!['?'] + text@
            &&& query is None ==> request.url@ == origin@ + pathname@
            &&& crate::headers::header_values(request.headers, "cookie"@) == seq![
                (vstd::utf8::encode_utf8(cookie@), true),
            ]
            &&& crate::headers::header_values(request.headers, "host"@).len() == 0
            &&& crate::headers::header_values(request.headers, "origin"@).len() == 0
            &&& crate::headers::header_values(request.headers, "sec-fetch-site"@).len() == 0
            &&& crate::headers::header_values(request.headers, "accept-encoding"@).len() == 0
            &&& forall|name: Seq<char>|
                name != "cookie"@ && name != "host"@ && name != "origin"@ && name
                    != "sec-fetch-site"@ && name != "accept-encoding"@
                    ==> #[trigger] crate::headers::header_values(request.headers, name)
                    == crate::headers::header_values(*headers, name)
        },
{
    reveal_strlit("?");
    assert("?"@ =~= seq!['?']);
    if let ForwardStep::Send(request) = step {
        if let Some((origin, cookie)) = *connection {
            crate::web_document::law_page_credentials_stop(*headers, request.headers, cookie@);
            let names = crate::web_document::STRIPPED_REQUEST_HEADERS@;
            assert forall|name: Seq<char>|
                name != "cookie"@ && name != "host"@ && name != "origin"@ && name
                    != "sec-fetch-site"@ && name
                    != "accept-encoding"@ implies #[trigger] crate::headers::header_values(
                request.headers,
                name,
            ) == crate::headers::header_values(*headers, name) by {
                if crate::headers::named_in(names, name) {
                    let i = choose|i: int| 0 <= i < names.len() && #[trigger] names[i]@ == name;
                    assert(i == 0 || i == 1 || i == 2 || i == 3 || i == 4);
                }
            }
        }
    }
}

/// Requests with different queries never get the same URL, nor does one with a
/// query get that of one without.
pub proof fn law_queries_are_told_apart(
    connection: &Option<(String, String)>,
    method: &str,
    headers: &http::HeaderMap<http::HeaderValue>,
    pathname: &str,
    body: Vec<u8>,
    one: Option<&str>,
    other: Option<&str>,
    first: ForwardStep,
    second: ForwardStep,
)
    requires
        call_ensures(forward, (connection, method, headers, pathname, one, body), first),
        call_ensures(forward, (connection, method, headers, pathname, other, body), second),
        first is Send,
        second is Send,
        first->Send_0.url@ == second->Send_0.url@,
    ensures
        one is Some <==> other is Some,
        one is Some ==> one->0@ == other->0@,
{
    law_requests_reach_the_host_whole(connection, method, headers, pathname, one, body, first);
    law_requests_reach_the_host_whole(connection, method, headers, pathname, other, body, second);
    if let Some((origin, cookie)) = *connection {
        let front = origin@ + pathname@;
        let url = first->Send_0.url@;
        if one is Some && other is Some {
            let marked = front + seq!['?'];
            assert(url.skip(marked.len() as int) =~= one->0@);
            assert(url.skip(marked.len() as int) =~= other->0@);
        }
    }
}

/// The Host's answer reaches the page with its status, its body and every value
/// of every field but three. A status that is none, and a request that fails,
/// are bad gateways.
pub proof fn law_answers_reach_the_page_whole(
    status: u16,
    headers: http::HeaderMap<http::HeaderValue>,
    body: Option<Vec<u8>>,
    answer: Option<DocumentResponse>,
    failed: Option<DocumentResponse>,
)
    requires
        call_ensures(host_response, (HostReply::Answered { status, headers, body },), answer),
        call_ensures(host_response, (HostReply::Failed,), failed),
    ensures
        failed matches Some(response) && empty_answer(response, 502),
        crate::headers::header_fields(headers).len() <= 6553 ==> answer is Some,
        answer matches Some(response) ==> {
            &&& 100 <= status < 1000 ==> response.status == status
            &&& !(100 <= status < 1000) ==> response.status == 502
            &&& body matches Some(bytes) ==> response.body@ == bytes@
            &&& body is None ==> response.body@.len() == 0
            &&& crate::headers::header_values(response.headers, "set-cookie"@).len() == 0
            &&& crate::headers::header_values(response.headers, "content-length"@).len() == 0
            &&& crate::headers::header_values(response.headers, "content-encoding"@).len() == 0
            &&& forall|name: Seq<char>|
                name != "set-cookie"@ && name != "content-length"@ && name != "content-encoding"@
                    ==> #[trigger] crate::headers::header_values(response.headers, name)
                    == crate::headers::header_values(headers, name)
        },
{
    let names = crate::web_document::STRIPPED_RESPONSE_HEADERS@;
    crate::headers::lemma_kept_at_most(crate::headers::header_fields(headers), names);
    if let Some(response) = answer {
        crate::web_document::law_host_cookies_stop(headers, response.headers);
        assert forall|name: Seq<char>|
            name != "set-cookie"@ && name != "content-length"@ && name
                != "content-encoding"@ implies #[trigger] crate::headers::header_values(
            response.headers,
            name,
        ) == crate::headers::header_values(headers, name) by {
            if crate::headers::named_in(names, name) {
                let i = choose|i: int| 0 <= i < names.len() && #[trigger] names[i]@ == name;
                assert(i == 0 || i == 1 || i == 2);
            }
        }
    }
}

/// A request with no more fields than a map always takes is sent, once its
/// origin is not foreign and the Host is ready.
pub proof fn law_requests_are_sent(
    connection: &Option<(String, String)>,
    method: &str,
    headers: &http::HeaderMap<http::HeaderValue>,
    pathname: &str,
    query: Option<&str>,
    body: Vec<u8>,
    step: ForwardStep,
)
    requires
        call_ensures(forward, (connection, method, headers, pathname, query, body), step),
        connection is Some,
        crate::headers::header_fields(*headers).len() <= 6553,
        ({
            let origins = crate::headers::header_values(*headers, "origin"@);
            origins.len() > 0 ==> origins[0].0 == vstd::utf8::encode_utf8("dsh-app://app"@)
        }),
    ensures
        step is Send,
{
    let names = crate::web_document::STRIPPED_REQUEST_HEADERS@;
    crate::headers::lemma_kept_at_most(crate::headers::header_fields(*headers), names);
}

/// The body of the index is the document with the boot gate behind its first
/// `<head>`, or the document as it is where it has none, whatever file it was
/// read from.
pub proof fn law_index_bodies(
    method: &str,
    pathname: &str,
    target: &str,
    bytes: Vec<u8>,
    document: &str,
    served: String,
    response: DocumentResponse,
)
    requires
        call_ensures(
            asset_response,
            (method, pathname, target, AssetRead::Bytes(bytes)),
            response,
        ),
        call_ensures(gated_index, (document,), served),
        method@ != "HEAD"@,
        pathname@ == "/"@ || pathname@ == "/index.html"@,
        bytes@ == vstd::utf8::encode_utf8(document@),
    ensures
        response.body@ == vstd::utf8::encode_utf8(served@),
{
    vstd::utf8::encode_utf8_valid_utf8(document@);
    vstd::utf8::encode_utf8_decode_utf8(document@);
}

/// The media type of an answer is that of the file it was read from.
pub proof fn law_answers_have_the_type_of_their_file(
    method: &str,
    pathname: &str,
    target: &str,
    bytes: Vec<u8>,
    mime: &'static str,
    response: DocumentResponse,
)
    requires
        call_ensures(
            asset_response,
            (method, pathname, target, AssetRead::Bytes(bytes)),
            response,
        ),
        call_ensures(mime_of, (target,), mime),
    ensures
        content_type_alone(response.headers, mime@),
{
}

/// A static request reads the file that is found for its path below the root,
/// and is refused where none is; the root of the document stands for its index.
pub proof fn law_static_requests_read_what_is_found(
    dist: &str,
    method: &str,
    pathname: &str,
    relative: &str,
    found: Option<String>,
    step: StaticStep,
)
    requires
        call_ensures(serve_static, (dist, method, pathname), step),
        call_ensures(root_relative, (dist, relative), found),
        method@ == "GET"@ || method@ == "HEAD"@,
        pathname@ == "/"@ ==> relative@ == "/index.html"@,
        pathname@ != "/"@ ==> relative@ == pathname@,
    ensures
        found matches Some(path) ==> (step matches StaticStep::Read(target) && target@ == path@),
        found is None ==> (step matches StaticStep::Answer(response) && empty_answer(
            response,
            403,
        )),
{
}

proof fn lemma_closed_root(dir: Seq<char>, parts: Seq<Seq<char>>)
    requires
        forall|i: int| 0 <= i < parts.len() ==> plain_part(#[trigger] parts[i]),
    ensures
        ({
            let found = crate::web_document::descended(
                dir.push('/'),
                seq![Seq::<char>::empty()] + parts,
            );
            if parts.len() == 0 {
                found == dir.push('/')
            } else {
                found == dir + slashed(parts) && found.last() != '/'
            }
        }),
    decreases parts.len(),
{
    let start = seq![Seq::<char>::empty()];
    let root = dir.push('/');
    if parts.len() == 0 {
        assert(start + parts =~= start);
        assert(start.drop_last() =~= Seq::<Seq<char>>::empty());
        reveal_with_fuel(crate::web_document::descended, 2);
    } else {
        let earlier = parts.drop_last();
        let part = parts.last();
        assert forall|i: int| 0 <= i < earlier.len() implies plain_part(#[trigger] earlier[i]) by {
            assert(earlier[i] == parts[i]);
        }
        lemma_closed_root(dir, earlier);
        assert(plain_part(parts[parts.len() - 1]));
        assert((start + parts).drop_last() =~= start + earlier);
        assert((start + parts).last() == part);
        assert(part[0] != '/' && part[part.len() - 1] != '/');
        let upper = crate::web_document::descended(root, start + earlier);
        if earlier.len() == 0 {
            assert(slashed(parts) =~= seq!['/'] + part);
            assert(root + part =~= dir + slashed(parts));
        } else {
            assert(upper.push('/') + part =~= dir + slashed(parts));
        }
    }
}

/// A root with a trailing separator is the same directory.
pub proof fn law_closed_roots_are_the_same(
    root: &str,
    dir: Seq<char>,
    pathname: &str,
    parts: Seq<Seq<char>>,
    target: Option<String>,
)
    requires
        call_ensures(root_relative, (root, pathname), target),
        root@ == dir.push('/'),
        parts.len() > 0,
        forall|i: int| 0 <= i < parts.len() ==> plain_part(#[trigger] parts[i]),
        pathname@ == slashed(parts),
    ensures
        target matches Some(path) && path@ == dir + pathname@,
{
    assert forall|i: int| 0 <= i < parts.len() implies !(#[trigger] parts[i]).contains('/') by {
        assert(plain_part(parts[i]));
    }
    lemma_segments_slashed(parts);
    lemma_closed_root(dir, parts);
    lemma_clean(seq!['a'], parts);
}

} // verus!
