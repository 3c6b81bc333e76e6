//! The decisions of an upload to a Blip server: which server and token a
//! configured URL names, which endpoint a request goes to, which HLS files are
//! sent, and how multipart chunks are numbered.

use vstd::prelude::*;

use crate::profiles::{has_fragment, has_token, is_secure, secure_scheme, RecordingFormat};
use crate::text::{
    chars_of, decimal, decimal_spec, eq_ignore_ascii_case, eq_ignore_ascii_case_spec, file_name,
    file_name_spec, join_path, join_path_spec, name_extension, name_extension_spec, opt_text,
    owned, same_text, sort_texts, starts_with, starts_with_spec, string_of, text_order, texts,
    trim, trim_bounds, trim_spec,
};
use crate::urls::{
    join, parse_url, url_fragment, url_join, url_parses, url_path, url_with_path,
    url_without_fragment, with_path, without_fragment,
};

verus! {

/// The characters of a pair result.
pub open spec fn pair_result_chars(r: Result<(String, String), String>) -> Result<(Seq<char>, Seq<char>), Seq<char>> {
    match r {
        Ok((a, b)) => Ok((a@, b@)),
        Err(e) => Err(e@),
    }
}

/// The characters of a text result.
pub open spec fn text_result_chars(r: Result<String, String>) -> Result<Seq<char>, Seq<char>> {
    match r {
        Ok(a) => Ok(a@),
        Err(e) => Err(e@),
    }
}

/// The characters of an error message.
pub open spec fn bool_result_chars(r: Result<bool, String>) -> Result<bool, Seq<char>> {
    match r {
        Ok(b) => Ok(b),
        Err(e) => Err(e@),
    }
}

/// The server URL and access token that an upload uses: the URL must parse,
/// carry a non-empty fragment and be HTTPS (or HTTP to `localhost`).
pub open spec fn parse_server_url_spec(value: Seq<char>) -> Result<(Seq<char>, Seq<char>), Seq<char>> {
    let v = trim_spec(value);
    if !url_parses(v) {
        Err("invalid Blip server URL"@)
    } else if !has_token(v) {
        Err("Blip server URL is missing its access token"@)
    } else if !secure_scheme(v) {
        Err("Blip server URL must use HTTPS"@)
    } else {
        Ok((url_without_fragment(v), url_fragment(v).unwrap()))
    }
}

/// Splits a configured server URL into the server URL and its access token,
/// refusing URLs that cannot be used for an upload.
pub fn parse_server_url(value: &str) -> (r: Result<(String, String), String>)
    ensures
        pair_result_chars(r) == parse_server_url_spec(value@),
{
    let v = trim(value);
    let parts = match parse_url(v.as_str()) {
        None => return Err(owned("invalid Blip server URL")),
        Some(p) => p,
    };
    if !has_fragment(&parts) {
        return Err(owned("Blip server URL is missing its access token"));
    }
    let token = match parts.fragment {
        Some(ref f) => f.clone(),
        None => String::new(),
    };
    if !is_secure(&parts) {
        return Err(owned("Blip server URL must use HTTPS"));
    }
    match without_fragment(v.as_str()) {
        Some(base) => Ok((base, token)),
        None => Err(owned("invalid Blip server URL")),
    }
}

/// The base URL that endpoints are resolved against: its path ends with `/`.
pub open spec fn endpoint_base_spec(base: Seq<char>) -> Seq<char> {
    let p = url_path(base);
    if p.len() > 0 && p.last() == '/' {
        base
    } else {
        url_with_path(base, p.push('/'))
    }
}

/// Whether the server URL `base` is small enough to be resolved here: the
/// `url` crate panics when a URL's text passes `u32::MAX` bytes, and the
/// path resolution stays far below that for URLs within this bound.
pub open spec fn endpoint_size_ok(base: Seq<char>) -> bool {
    base.len() + url_path(base).len() + 1 < 0x1000_0000
}

/// The URL of the endpoint `path` under the server `base`, or the error an
/// upload reports when it cannot be formed.
pub open spec fn endpoint_spec(base: Seq<char>, path: Seq<char>) -> Result<Seq<char>, Seq<char>> {
    if !url_parses(base) {
        Err("invalid Blip server endpoint"@)
    } else {
        let b = endpoint_base_spec(base);
        let joined = if url_parses(b) {
            url_join(b, path)
        } else {
            None
        };
        match joined {
            Some(u) => Ok(u),
            None => Err("invalid Blip server endpoint"@),
        }
    }
}

/// Resolves the endpoint `path` against the server URL `base_url`, treating the
/// server URL's path as a folder. Server URLs of a quarter of a gigabyte and
/// more are left out (see [`endpoint_within_limits`]).
pub fn endpoint(base_url: &str, path: &str) -> (r: Result<String, String>)
    requires
        url_parses(base_url@) ==> endpoint_size_ok(base_url@),
    ensures
        text_result_chars(r) == endpoint_spec(base_url@, path@),
{
    let parts = match parse_url(base_url) {
        None => return Err(owned("invalid Blip server endpoint")),
        Some(p) => p,
    };
    let p = chars_of(parts.path.as_str());
    let base = if p.len() > 0 && p[p.len() - 1] == '/' {
        owned(base_url)
    } else {
        let mut q = p;
        q.push('/');
        let new_path = string_of(q.as_slice());
        match with_path(base_url, new_path.as_str()) {
            Some(b) => b,
            None => return Err(owned("invalid Blip server endpoint")),
        }
    };
    match join(base.as_str(), path) {
        Some(u) => Ok(u),
        None => Err(owned("invalid Blip server endpoint")),
    }
}

/// Resolves the endpoint `path` against the server URL `base_url` as
/// [`endpoint`] does, when the server URL is within the size it takes;
/// `None` for a longer one, which is not resolved.
pub fn endpoint_within_limits(base_url: &str, path: &str) -> (r: Option<Result<String, String>>)
    ensures
        url_parses(base_url@) && !endpoint_size_ok(base_url@) ==> r is None,
        !url_parses(base_url@) || endpoint_size_ok(base_url@) ==> (r matches Some(e)
            && text_result_chars(e) == endpoint_spec(base_url@, path@)),
{
    let parts = match parse_url(base_url) {
        None => return Some(endpoint(base_url, path)),
        Some(p) => p,
    };
    let p = chars_of(parts.path.as_str());
    let n = chars_of(base_url).len();
    if n >= 0x1000_0000 || p.len() >= 0x1000_0000 - n - 1 {
        return None;
    }
    Some(endpoint(base_url, path))
}

/// The extension of the final component of `path`, as `Path::extension` gives it.
pub open spec fn path_extension_spec(path: Seq<char>) -> Option<Seq<char>> {
    match file_name_spec(path) {
        Some(n) => name_extension_spec(n),
        None => None,
    }
}

/// Whether a file is an HLS media segment: named `segment...` with the
/// extension `m4s` in any ASCII case.
pub open spec fn is_segment_file(name: Seq<char>, extension: Option<Seq<char>>) -> bool {
    &&& starts_with_spec(name, "segment"@)
    &&& match extension {
        Some(e) => eq_ignore_ascii_case_spec(e, "m4s"@),
        None => false,
    }
}

fn is_segment(name: &[char], extension: &Option<Vec<char>>) -> (r: bool)
    ensures
        r == is_segment_file(
            name@,
            match extension {
                Some(e) => Some(e@),
                None => None,
            },
        ),
{
    if !starts_with(name, "segment") {
        return false;
    }
    match extension {
        Some(e) => eq_ignore_ascii_case(e.as_slice(), "m4s"),
        None => false,
    }
}

/// The verdict on an HLS file produced during a recording: `Ok(true)` for the
/// initialization segment, `Ok(false)` for a media segment, an error otherwise.
pub open spec fn validate_hls_asset_spec(path: Seq<char>) -> Result<bool, Seq<char>> {
    match file_name_spec(path) {
        None => Err("HLS recording contains an invalid filename"@),
        Some(n) => if n == "init.mp4"@ {
            Ok(true)
        } else if !is_segment_file(n, name_extension_spec(n)) {
            Err("HLS recording contains an unexpected file: "@ + n)
        } else {
            Ok(false)
        },
    }
}

/// Checks a file that the HLS writer produced; tells whether it is the
/// initialization segment.
pub fn validate_hls_asset(path: &str) -> (r: Result<bool, String>)
    ensures
        bool_result_chars(r) == validate_hls_asset_spec(path@),
{
    let name = match file_name(path) {
        None => return Err(owned("HLS recording contains an invalid filename")),
        Some(n) => n,
    };
    if same_text(name.as_str(), "init.mp4") {
        return Ok(true);
    }
    let chars = chars_of(name.as_str());
    let extension = name_extension(chars.as_slice());
    if !is_segment(chars.as_slice(), &extension) {
        let mut message = owned("HLS recording contains an unexpected file: ");
        message.append(name.as_str());
        return Err(message);
    }
    Ok(false)
}

/// The name an upload is registered under: the file name of `path`, or a
/// default for the format when the path has none.
pub open spec fn upload_filename_spec(path: Seq<char>, format: RecordingFormat) -> Seq<char> {
    match file_name_spec(path) {
        Some(n) => n,
        None => if format == RecordingFormat::Hls {
            "recording.hls"@
        } else {
            "recording.mp4"@
        },
    }
}

/// The name an upload is registered under.
pub fn upload_filename(path: &str, format: RecordingFormat) -> (r: String)
    ensures
        r@ == upload_filename_spec(path@, format),
{
    match file_name(path) {
        Some(n) => n,
        None => if format == RecordingFormat::Hls {
            owned("recording.hls")
        } else {
            owned("recording.mp4")
        },
    }
}

/// The file whose bytes an upload sends: the playlist of an HLS recording
/// folder, or the recording itself.
pub open spec fn upload_source_spec(path: Seq<char>, format: RecordingFormat) -> Seq<char> {
    if format == RecordingFormat::Hls {
        join_path_spec(path, "playlist.m3u8"@)
    } else {
        path
    }
}

/// The file whose bytes an upload sends.
pub fn upload_source(path: &str, format: RecordingFormat) -> (r: String)
    ensures
        r@ == upload_source_spec(path@, format),
{
    if format == RecordingFormat::Hls {
        join_path(path, "playlist.m3u8")
    } else {
        owned(path)
    }
}

/// The smallest multipart chunk a server may ask for: 5 MiB.
pub const MIN_PART_SIZE: usize = 5242880;

/// Checks the chunk size that the server chose for a multipart upload.
pub fn check_part_size(part_size: usize) -> (r: Result<(), String>)
    ensures
        r is Ok == (part_size >= MIN_PART_SIZE),
        r matches Err(e) ==> e@ == "server returned an invalid multipart chunk size"@,
{
    if part_size < MIN_PART_SIZE {
        Err(owned("server returned an invalid multipart chunk size"))
    } else {
        Ok(())
    }
}


/// Whether a file of an HLS recording folder is left out of the upload: the
/// playlist, which is sent last as the multipart body, and hidden files.
pub open spec fn skipped_asset(name: Seq<char>) -> bool {
    name == "playlist.m3u8"@ || starts_with_spec(name, "."@)
}

/// The files sent, in order, and the error that ends the sending, for the
/// folder entries `names` taken in order; `found` tells whether the
/// initialization segment was already met.
pub open spec fn hls_plan_from(names: Seq<Seq<char>>, found: bool) -> (Seq<Seq<char>>, Option<Seq<char>>)
    decreases names.len(),
{
    if names.len() == 0 {
        (
            Seq::empty(),
            if found {
                None
            } else {
                Some("HLS recording is missing init.mp4"@)
            },
        )
    } else {
        let n = names[0];
        let rest = names.drop_first();
        if skipped_asset(n) {
            hls_plan_from(rest, found)
        } else if n == "init.mp4"@ {
            let (u, e) = hls_plan_from(rest, true);
            (seq![n] + u, e)
        } else if !is_segment_file(n, path_extension_spec(n)) {
            (Seq::empty(), Some("HLS recording contains an unexpected file: "@ + n))
        } else {
            let (u, e) = hls_plan_from(rest, found);
            (seq![n] + u, e)
        }
    }
}

/// The files of an HLS recording folder that are sent, in name order, and the
/// error that ends the sending, if any.
pub open spec fn hls_upload_plan_spec(names: Seq<Seq<char>>) -> (Seq<Seq<char>>, Option<Seq<char>>) {
    hls_plan_from(names.sort_by(text_order()), false)
}

/// Which files of an HLS recording folder are uploaded, in order, and the
/// error that stops the upload after them, if any.
pub struct HlsAssetPlan {
    pub uploads: Vec<String>,
    pub error: Option<String>,
}

/// The extension of the final component of `path`.
fn path_extension(path: &str) -> (r: Option<Vec<char>>)
    ensures
        match r {
            Some(e) => Some(e@),
            None => None,
        } == path_extension_spec(path@),
{
    match file_name(path) {
        None => None,
        Some(n) => {
            let c = chars_of(n.as_str());
            name_extension(c.as_slice())
        },
    }
}

/// Whether the file at `path` has the extension `extension`, as `Path::extension` reads it.
pub fn has_extension(path: &str, extension: &str) -> (r: bool)
    ensures
        r == (path_extension_spec(path@) == Some(extension@)),
{
    match path_extension(path) {
        None => false,
        Some(e) => {
            let text = string_of(e.as_slice());
            same_text(text.as_str(), extension)
        },
    }
}

/// Plans the upload of the files of an HLS recording folder, named `names`.
pub fn plan_hls_upload(names: &Vec<String>) -> (r: HlsAssetPlan)
    ensures
        (texts(r.uploads@), opt_text(r.error)) == hls_upload_plan_spec(texts(names@)),
{
    let sorted = sort_texts(names);
    let ghost all = texts(sorted@);
    let mut uploads: Vec<String> = Vec::new();
    let mut found = false;
    let mut i: usize = 0;
    assert(all.skip(0) =~= all);
    while i < sorted.len()
        invariant
            i <= sorted@.len(),
            all == texts(sorted@),
            all == texts(names@).sort_by(text_order()),
            ({
                let (u, e) = hls_plan_from(all.skip(i as int), found);
                hls_plan_from(all, false) == (texts(uploads@) + u, e)
            }),
        decreases sorted@.len() - i,
    {
        let ghost tail = all.skip(i as int);
        assert(tail[0] == all[i as int]);
        assert(tail.drop_first() =~= all.skip(i + 1));
        let name = &sorted[i];
        let c = chars_of(name.as_str());
        if same_text(name.as_str(), "playlist.m3u8") || starts_with(c.as_slice(), ".") {
            i = i + 1;
        } else if same_text(name.as_str(), "init.mp4") {
            found = true;
            uploads.push(name.clone());
            assert(texts(uploads@) =~= texts(uploads@).drop_last().push(name@));
            i = i + 1;
        } else {
            let extension = path_extension(name.as_str());
            if !is_segment(c.as_slice(), &extension) {
                let mut message = owned("HLS recording contains an unexpected file: ");
                message.append(name.as_str());
                assert(!skipped_asset(tail[0]));
                assert(hls_plan_from(tail, found) == (Seq::<Seq<char>>::empty(), Some(message@)));
                assert(texts(uploads@) + Seq::<Seq<char>>::empty() =~= texts(uploads@));
                return HlsAssetPlan { uploads, error: Some(message) };
            }
            uploads.push(name.clone());
            assert(texts(uploads@) =~= texts(uploads@).drop_last().push(name@));
            i = i + 1;
        }
    }
    assert(all.skip(i as int) =~= Seq::<Seq<char>>::empty());
    assert(texts(uploads@) + Seq::<Seq<char>>::empty() =~= texts(uploads@));
    if found {
        HlsAssetPlan { uploads, error: None }
    } else {
        HlsAssetPlan { uploads, error: Some(owned("HLS recording is missing init.mp4")) }
    }
}


/// The first `n` characters of `s`, or all of it when it is shorter.
pub open spec fn first_chars(s: Seq<char>, n: nat) -> Seq<char> {
    if s.len() <= n {
        s
    } else {
        s.take(n as int)
    }
}

/// The error reported when the server answers a request with a failure status:
/// the action, the status, and the first thousand characters of the body,
/// trimmed, when they are not blank.
pub open spec fn http_failure_spec(action: Seq<char>, status: Seq<char>, body: Seq<char>) -> Seq<char> {
    let b = trim_spec(first_chars(body, 1000));
    "failed to "@ + action + ": HTTP status "@ + status + if b.len() == 0 {
        Seq::empty()
    } else {
        ": "@ + b
    }
}

/// The error reported when the server answers `action` with the failure
/// status `status` and the body `body`.
pub fn http_failure_message(action: &str, status: &str, body: &str) -> (r: String)
    ensures
        r@ == http_failure_spec(action@, status@, body@),
{
    let c = chars_of(body);
    let n: usize = if c.len() <= 1000 { c.len() } else { 1000 };
    let head = &c.as_slice()[0..n];
    let (a, b) = trim_bounds(head);
    let detail = string_of(&head[a..b]);
    let mut r = owned("failed to ");
    r.append(action);
    r.append(": HTTP status ");
    r.append(status);
    if a < b {
        r.append(": ");
        r.append(detail.as_str());
    }
    proof {
        assert(head@ =~= first_chars(body@, 1000));
    }
    r
}

/// The error reported when a request for `action` could not be sent or answered.
pub open spec fn request_failure_spec(action: Seq<char>, error: Seq<char>) -> Seq<char> {
    "failed to "@ + action + ": "@ + error
}

/// The error reported when a request for `action` failed with `error`.
pub fn request_failure_message(action: &str, error: &str) -> (r: String)
    ensures
        r@ == request_failure_spec(action@, error@),
{
    let mut r = owned("failed to ");
    r.append(action);
    r.append(": ");
    r.append(error);
    r
}

/// The error reported when the server's answer to `action` cannot be decoded.
pub open spec fn invalid_response_spec(action: Seq<char>, error: Seq<char>) -> Seq<char> {
    "server returned an invalid response while trying to "@ + action + ": "@ + error
}

/// The error reported when the server's answer to `action` could not be decoded.
pub fn invalid_response_message(action: &str, error: &str) -> (r: String)
    ensures
        r@ == invalid_response_spec(action@, error@),
{
    let mut r = owned("server returned an invalid response while trying to ");
    r.append(action);
    r.append(": ");
    r.append(error);
    r
}

/// `s` without its leading `"` characters.
pub open spec fn strip_quotes_start(s: Seq<char>) -> Seq<char>
    decreases s.len(),
{
    if s.len() > 0 && s[0] == '"' {
        strip_quotes_start(s.drop_first())
    } else {
        s
    }
}

/// `s` without its trailing `"` characters.
pub open spec fn strip_quotes_end(s: Seq<char>) -> Seq<char>
    decreases s.len(),
{
    if s.len() > 0 && s.last() == '"' {
        strip_quotes_end(s.drop_last())
    } else {
        s
    }
}

/// `s` without leading and trailing `"`, as `trim_matches('"')` gives it.
pub open spec fn strip_quotes_spec(s: Seq<char>) -> Seq<char> {
    strip_quotes_end(strip_quotes_start(s))
}

/// The entity tag of an uploaded chunk, without its quotes.
pub fn strip_quotes(s: &str) -> (r: String)
    ensures
        r@ == strip_quotes_spec(s@),
{
    let v = chars_of(s);
    let n = v.len();
    let mut a: usize = 0;
    assert(v@.subrange(0, n as int) =~= v@);
    while a < n && v[a] == '"'
        invariant
            n == v@.len(),
            a <= n,
            strip_quotes_start(v@) == strip_quotes_start(v@.subrange(a as int, n as int)),
        decreases n - a,
    {
        assert(v@.subrange(a as int, n as int).drop_first() =~= v@.subrange(a + 1, n as int));
        a = a + 1;
    }
    let ghost t = v@.subrange(a as int, n as int);
    let mut b: usize = n;
    while b > a && v[b - 1] == '"'
        invariant
            n == v@.len(),
            a <= b <= n,
            t == v@.subrange(a as int, n as int),
            strip_quotes_end(t) == strip_quotes_end(v@.subrange(a as int, b as int)),
        decreases b - a,
    {
        assert(v@.subrange(a as int, b as int).drop_last() =~= v@.subrange(a as int, b - 1));
        b = b - 1;
    }
    string_of(&v.as_slice()[a..b])
}

/// A chunk of a multipart upload, as the server needs it to complete the upload.
pub struct UploadedPart {
    pub part_number: usize,
    pub etag: String,
}

/// The chunks uploaded so far; they are numbered 1, 2, 3, ... in the order
/// they were sent.
pub struct PartLog {
    parts: Vec<UploadedPart>,
}

impl PartLog {
    /// Parts are numbered from 1 in the order they were recorded.
    #[verifier::type_invariant]
    spec fn numbered(self) -> bool {
        forall|i: int| 0 <= i < self.parts@.len() ==> #[trigger] self.parts@[i].part_number == i + 1
    }

    /// The entity tags of the recorded parts, in order.
    pub closed spec fn etags(self) -> Seq<Seq<char>> {
        self.parts@.map_values(|p: UploadedPart| p.etag@)
    }

    /// No parts yet.
    pub fn new() -> (r: Self)
        ensures
            r.etags() == Seq::<Seq<char>>::empty(),
    {
        let r = PartLog { parts: Vec::new() };
        assert(r.etags() =~= Seq::<Seq<char>>::empty());
        r
    }

    /// The number the next chunk gets.
    pub fn next_part_number(&self) -> (r: Result<usize, String>)
        ensures
            r is Ok == (self.etags().len() < usize::MAX),
            r matches Ok(n) ==> n == self.etags().len() + 1,
            r matches Err(e) ==> e@ == "recording has too many chunks"@,
    {
        let n = self.parts.len();
        if n == usize::MAX {
            Err(owned("recording has too many chunks"))
        } else {
            Ok(n + 1)
        }
    }

    /// Records the chunk sent next, with its entity tag; returns its number.
    pub fn record(&mut self, etag: String) -> (r: Result<usize, String>)
        ensures
            r is Ok == (old(self).etags().len() < usize::MAX),
            r matches Ok(n) ==> n == old(self).etags().len() + 1 && final(self).etags() == old(self).etags().push(etag@),
            r matches Err(e) ==> e@ == "recording has too many chunks"@ && final(self).etags() == old(self).etags(),
    {
        proof { use_type_invariant(&*self); }
        let n = self.parts.len();
        if n == usize::MAX {
            return Err(owned("recording has too many chunks"));
        }
        let ghost e = etag@;
        let mut parts: Vec<UploadedPart> = Vec::new();
        std::mem::swap(&mut parts, &mut self.parts);
        parts.push(UploadedPart { part_number: n + 1, etag });
        self.parts = parts;
        assert(self.etags() =~= old(self).etags().push(e));
        Ok(n + 1)
    }

    /// The recorded parts, numbered 1, 2, 3, ... in order; an upload without
    /// any chunk is refused.
    pub fn finish(self) -> (r: Result<Vec<UploadedPart>, String>)
        ensures
            r is Ok == (self.etags().len() > 0),
            r matches Ok(v) ==> v@.len() == self.etags().len() && forall|i: int|
                0 <= i < v@.len() ==> (#[trigger] v@[i]).part_number == i + 1 && v@[i].etag@ == self.etags()[i],
            r matches Err(e) ==> e@ == "cannot upload an empty recording"@,
    {
        proof { use_type_invariant(&self); }
        if self.parts.len() == 0 {
            return Err(owned("cannot upload an empty recording"));
        }
        let ghost tags = self.etags();
        let v = self.parts;
        assert forall|i: int| 0 <= i < v@.len() implies v@[i].etag@ == tags[i] by {}
        Ok(v)
    }
}

/// Whether the initialization segment is known after registering the files
/// `paths` in order, starting from `found`; refused files change nothing.
pub open spec fn registered_init(found: bool, paths: Seq<Seq<char>>) -> bool
    decreases paths.len(),
{
    if paths.len() == 0 {
        found
    } else {
        match validate_hls_asset_spec(paths.last()) {
            Ok(is_init) => registered_init(found, paths.drop_last()) || is_init,
            Err(_) => registered_init(found, paths.drop_last()),
        }
    }
}

/// An incremental HLS upload can be completed exactly when one of the files
/// registered so far is the initialization segment `init.mp4`.
pub proof fn law_finish_needs_the_initialization_segment(paths: Seq<Seq<char>>)
    ensures
        registered_init(false, paths) <==> exists|i: int|
            0 <= i < paths.len() && #[trigger] validate_hls_asset_spec(paths[i]) == Ok::<bool, Seq<char>>(true),
    decreases paths.len(),
{
    if paths.len() > 0 {
        let init = paths.drop_last();
        law_finish_needs_the_initialization_segment(init);
        if registered_init(false, paths) {
            if registered_init(false, init) {
                let i = choose|i: int|
                    0 <= i < init.len() && #[trigger] validate_hls_asset_spec(init[i]) == Ok::<bool, Seq<char>>(true);
                assert(paths[i] == init[i]);
            } else {
                assert(validate_hls_asset_spec(paths[paths.len() - 1]) == Ok::<bool, Seq<char>>(true));
            }
        } else {
            assert forall|i: int| 0 <= i < paths.len() implies #[trigger] validate_hls_asset_spec(paths[i])
                != Ok::<bool, Seq<char>>(true) by {
                if i < paths.len() - 1 {
                    assert(paths[i] == init[i]);
                }
            }
        }
    }
}

/// What is known while the files of a recording are being uploaded one by one:
/// whether the initialization segment has been met.
pub struct HlsUploadState {
    pub found_initialization: bool,
}

impl HlsUploadState {
    /// No file met yet.
    pub fn new() -> (r: Self)
        ensures
            !r.found_initialization,
    {
        HlsUploadState { found_initialization: false }
    }

    /// Checks a file produced by the writer before it is uploaded, noting the
    /// initialization segment. A refused file changes nothing.
    pub fn register_asset(&mut self, path: &str) -> (r: Result<(), String>)
        ensures
            match validate_hls_asset_spec(path@) {
                Ok(is_init) => r is Ok && final(self).found_initialization == (old(self).found_initialization || is_init),
                Err(e) => r matches Err(m) && m@ == e && final(self).found_initialization == old(self).found_initialization,
            },
            final(self).found_initialization == registered_init(old(self).found_initialization, seq![path@]),
    {
        proof {
            let one = seq![path@];
            assert(one.drop_last() =~= Seq::<Seq<char>>::empty());
            assert(one.last() == path@);
            assert(registered_init(self.found_initialization, one.drop_last()) == self.found_initialization);
        }
        match validate_hls_asset(path) {
            Ok(is_init) => {
                if is_init {
                    self.found_initialization = true;
                }
                Ok(())
            },
            Err(e) => Err(e),
        }
    }

    /// Whether the upload may be completed: the initialization segment must have been sent.
    pub fn check_finish(&self) -> (r: Result<(), String>)
        ensures
            r is Ok == self.found_initialization,
            r matches Err(e) ==> e@ == "HLS recording is missing init.mp4"@,
    {
        if self.found_initialization {
            Ok(())
        } else {
            Err(owned("HLS recording is missing init.mp4"))
        }
    }
}


/// What an upload session's endpoint is for.
#[derive(Clone, Copy, Debug, PartialEq, Eq, Structural)]
pub enum SessionEndpoint {
    /// Deleting the session, which abandons the upload.
    Abort,
    /// Completing the upload.
    Complete,
    /// Signing an HLS file.
    Assets,
    /// Signing a chunk.
    Parts,
}

/// The path, relative to the server, of an endpoint of upload session `id`.
pub open spec fn session_path_spec(id: Seq<char>, which: SessionEndpoint) -> Seq<char> {
    "api/uploads/"@ + id + match which {
        SessionEndpoint::Abort => Seq::<char>::empty(),
        SessionEndpoint::Complete => "/complete"@,
        SessionEndpoint::Assets => "/assets"@,
        SessionEndpoint::Parts => "/parts"@,
    }
}

/// The path, relative to the server, of an endpoint of upload session `id`.
pub fn session_path(id: &str, which: SessionEndpoint) -> (r: String)
    ensures
        r@ == session_path_spec(id@, which),
{
    let mut r = owned("api/uploads/");
    r.append(id);
    match which {
        SessionEndpoint::Abort => {},
        SessionEndpoint::Complete => r.append("/complete"),
        SessionEndpoint::Assets => r.append("/assets"),
        SessionEndpoint::Parts => r.append("/parts"),
    }
    r
}

/// The kind of recording announced when an upload starts.
#[derive(Clone, Copy, Debug, PartialEq, Eq, Structural)]
pub enum UploadFormat {
    Mp4,
    Hls,
}

/// The kind of recording announced for a recording in `format`: HLS, or MP4
/// for every other format.
pub fn upload_format(format: RecordingFormat) -> (r: UploadFormat)
    ensures
        r == if format == RecordingFormat::Hls { UploadFormat::Hls } else { UploadFormat::Mp4 },
{
    if format == RecordingFormat::Hls {
        UploadFormat::Hls
    } else {
        UploadFormat::Mp4
    }
}

/// The message when chunk `number` could not be sent.
pub open spec fn chunk_failure_spec(number: usize, error: Seq<char>) -> Seq<char> {
    "failed to upload chunk "@ + decimal_spec(number as nat) + ": "@ + error
}

/// The message when chunk `number` could not be sent because of `error`.
pub fn chunk_failure_message(number: usize, error: &str) -> (r: String)
    ensures
        r@ == chunk_failure_spec(number, error@),
{
    let mut r = owned("failed to upload chunk ");
    let d = decimal(number as u128);
    r.append(d.as_str());
    r.append(": ");
    r.append(error);
    r
}

/// The message when the storage gave no entity tag for chunk `number`.
pub open spec fn missing_etag_spec(number: usize) -> Seq<char> {
    "storage did not return an ETag for chunk "@ + decimal_spec(number as nat)
}

/// The message when the storage gave no entity tag for chunk `number`.
pub fn missing_etag_message(number: usize) -> (r: String)
    ensures
        r@ == missing_etag_spec(number),
{
    let mut r = owned("storage did not return an ETag for chunk ");
    let d = decimal(number as u128);
    r.append(d.as_str());
    r
}

/// The message when the HLS file `name` could not be read or sent: `verb`
/// is `read` or `upload`.
pub open spec fn asset_failure_spec(verb: Seq<char>, name: Seq<char>, error: Seq<char>) -> Seq<char> {
    "failed to "@ + verb + " HLS asset "@ + name + ": "@ + error
}

/// The message when the HLS file `name` could not be read or sent.
pub fn asset_failure_message(verb: &str, name: &str, error: &str) -> (r: String)
    ensures
        r@ == asset_failure_spec(verb@, name@, error@),
{
    let mut r = owned("failed to ");
    r.append(verb);
    r.append(" HLS asset ");
    r.append(name);
    r.append(": ");
    r.append(error);
    r
}

} // verus!
