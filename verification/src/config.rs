//! Configuration of the object store.

use vstd::prelude::*;

use crate::text;

verus! {

/// The region that is used where neither the region nor an endpoint that names
/// one is configured.
pub const DEFAULT_REGION: &'static str = "cn-hangzhou";

/// A secret. It has no `Debug`, and the displays of a configuration show `***`
/// in its place.
#[derive(PartialEq, Eq, Hash)]
pub struct ObfuscatedString {
    secret: String,
}

impl View for ObfuscatedString {
    type V = Seq<char>;

    closed spec fn view(&self) -> Seq<char> {
        self.secret@
    }
}

impl ObfuscatedString {
    /// Hides `secret`.
    pub fn new(secret: String) -> (hidden: Self)
        ensures
            hidden@ == secret@,
    {
        ObfuscatedString { secret }
    }

    /// The secret itself.
    pub fn as_string(&self) -> (secret: &String)
        ensures
            secret@ == self@,
    {
        &self.secret
    }
}

impl Clone for ObfuscatedString {
    fn clone(&self) -> (copy: Self)
        ensures
            copy == *self,
    {
        ObfuscatedString { secret: self.secret.clone() }
    }
}

/// Connection settings of the object store.
#[derive(PartialEq, Eq, Hash)]
pub struct OssConfig {
    pub region: Option<String>,
    pub endpoint: Option<String>,
    pub access_key_id: Option<String>,
    pub access_key_secret: Option<ObfuscatedString>,
    pub security_token: Option<ObfuscatedString>,
    pub anonymous: bool,
    pub max_retries: u32,
    pub connect_timeout_ms: u64,
    pub read_timeout_ms: u64,
    pub max_concurrent_requests: u32,
    pub max_connections_per_io_thread: u32,
    pub multipart_size: u64,
    pub multipart_max_concurrency: u32,
}

/// Whether `c` is an ASCII letter or an ASCII digit.
pub open spec fn ascii_alphanumeric(c: char) -> bool {
    ||| '0' <= c <= '9'
    ||| 'A' <= c <= 'Z'
    ||| 'a' <= c <= 'z'
}

/// `text` from its first ASCII letter or digit on.
pub open spec fn from_first_alphanumeric(text: Seq<char>) -> Seq<char>
    decreases text.len(),
{
    if text.len() > 0 && !ascii_alphanumeric(text[0]) {
        from_first_alphanumeric(text.skip(1))
    } else {
        text
    }
}

/// The part of an endpoint that is searched for a region: from its first ASCII
/// letter or digit on, up to the first `/`. Of `https://host` that is `https:`.
pub open spec fn endpoint_head(endpoint: Seq<char>) -> Seq<char> {
    let body = from_first_alphanumeric(endpoint);
    body.take(text::find_char(body, '/'))
}

/// What follows `oss-` in the first of `labels` that starts so.
pub open spec fn first_region(labels: Seq<Seq<char>>) -> Option<Seq<char>>
    decreases labels.len(),
{
    if labels.len() == 0 {
        None
    } else if text::occurs_at(labels[0], "oss-"@, 0) {
        Some(labels[0].skip(4))
    } else {
        first_region(labels.skip(1))
    }
}

/// The region that an endpoint names in one of its dot-separated labels.
pub open spec fn region_of(endpoint: Seq<char>) -> Option<Seq<char>> {
    first_region(text::split(endpoint_head(endpoint), '.'))
}

/// The endpoint that serves `region`.
pub open spec fn endpoint_of(region: Seq<char>) -> Seq<char> {
    "oss-"@ + region + ".aliyuncs.com"@
}

/// The region that `endpoint` names, if it names one.
pub fn extract_region(endpoint: &str) -> (region: Option<String>)
    ensures
        text::option_view(region) == region_of(endpoint@),
{
    proof {
        reveal_strlit("oss-");
    }
    let chars = text::chars_of(endpoint);
    let total: usize = chars.len();
    let mut first: usize = 0;
    assert(endpoint@.skip(0) == endpoint@);
    while first < total && !is_ascii_alphanumeric(chars[first])
        invariant
            chars@ == endpoint@,
            total == chars@.len(),
            first <= total,
            from_first_alphanumeric(endpoint@) == from_first_alphanumeric(
                endpoint@.skip(first as int),
            ),
        decreases total - first,
    {
        assert(endpoint@.skip(first as int).skip(1) == endpoint@.skip(first + 1));
        first = first + 1;
    }
    let ghost body = endpoint@.skip(first as int);
    assert(from_first_alphanumeric(endpoint@) == body);

    let mut end: usize = first;
    while end < total && chars[end] != '/'
        invariant
            chars@ == endpoint@,
            total == chars@.len(),
            first <= end <= total,
            forall|k: int| first <= k < end ==> chars@[k] != '/',
        decreases total - end,
    {
        end = end + 1;
    }
    proof {
        text::lemma_find_char_unique(body, '/', end - first);
    }
    let ghost head = endpoint_head(endpoint@);
    assert(head =~= endpoint@.subrange(first as int, end as int));

    // The labels before `start` do not start with `oss-`.
    let mut start: usize = first;
    assert(head.skip(0) == head);
    loop
        invariant
            chars@ == endpoint@,
            total == chars@.len(),
            first <= start <= end <= total,
            head == endpoint@.subrange(first as int, end as int),
            region_of(endpoint@) == first_region(text::split(head.skip(start - first), '.')),
            "oss-"@ =~= seq!['o', 's', 's', '-'],
        decreases end - start,
    {
        let mut stop: usize = start;
        while stop < end && chars[stop] != '.'
            invariant
                total == chars@.len(),
                start <= stop <= end <= total,
                forall|k: int| start <= k < stop ==> chars@[k] != '.',
            decreases end - stop,
        {
            stop = stop + 1;
        }
        let ghost rest = head.skip(start - first);
        let ghost label = endpoint@.subrange(start as int, stop as int);
        proof {
            assert forall|k: int| 0 <= k < stop - start implies rest[k] != '.' by {
                assert(rest[k] == chars@[start + k]);
            }
            text::lemma_find_char_unique(rest, '.', stop - start);
            assert(rest.take(stop - start) =~= label);
            assert(text::split(rest, '.')[0] == label);
        }
        if stop - start >= 4 && chars[start] == 'o' && chars[start + 1] == 's' && chars[start + 2]
            == 's' && chars[start + 3] == '-' {
            assert(label.subrange(0, 4) =~= "oss-"@);
            assert(label.skip(4) =~= endpoint@.subrange(start + 4, stop as int));
            return Some(endpoint.substring_char(start + 4, stop).to_owned());
        }
        assert(!text::occurs_at(label, "oss-"@, 0)) by {
            if text::occurs_at(label, "oss-"@, 0) {
                let prefix = label.subrange(0, 4);
                assert(prefix[0] == chars@[start as int]);
                assert(prefix[1] == chars@[start + 1]);
                assert(prefix[2] == chars@[start + 2]);
                assert(prefix[3] == chars@[start + 3]);
            }
        }
        if stop >= end {
            assert(text::split(rest, '.').skip(1) =~= Seq::<Seq<char>>::empty());
            assert(first_region(Seq::<Seq<char>>::empty()) is None);
            return None;
        }
        proof {
            assert(rest.skip(stop - start + 1) =~= head.skip(stop + 1 - first));
            assert(text::split(rest, '.').skip(1) =~= text::split(
                rest.skip(stop - start + 1),
                '.',
            ));
        }
        start = stop + 1;
    }
}

/// Whether `c` is an ASCII letter or an ASCII digit.
fn is_ascii_alphanumeric(c: char) -> (yes: bool)
    ensures
        yes == ascii_alphanumeric(c),
{
    ('0' <= c && c <= '9') || ('A' <= c && c <= 'Z') || ('a' <= c && c <= 'z')
}

/// The `Debug` form of a text, between double quotes and with its escapes.
pub uninterp spec fn str_debug(text: Seq<char>) -> Seq<char>;

/// Formats `text` by the `Debug` of `str`. What that form is, `str_debug`
/// names; nothing more is claimed of it.
#[verifier::external_body]
fn debug_text(text: &str) -> (shown: String)
    ensures
        shown@ == str_debug(text@),
{
    format!("{:?}", text)
}

/// The `Debug` form of an optional text.
pub open spec fn option_debug(value: Option<Seq<char>>) -> Seq<char> {
    match value {
        Some(text) => "Some("@ + str_debug(text) + ")"@,
        None => "None"@,
    }
}

/// One field of a configuration on a line of its own.
pub open spec fn field_line(name: Seq<char>, value: Seq<char>) -> Seq<char> {
    "\n    "@ + name + ": "@ + value
}

/// `label` followed by `value`, where there is a value; else nothing.
pub open spec fn optional_line(label: Seq<char>, value: Option<Seq<char>>) -> Seq<Seq<char>> {
    match value {
        Some(text) => seq![label + text],
        None => seq![],
    }
}

/// `label` followed by `***`, where there is a secret; else nothing.
pub open spec fn secret_line(label: Seq<char>, secret: Option<ObfuscatedString>) -> Seq<Seq<char>> {
    match secret {
        Some(_) => seq![label + "***"@],
        None => seq![],
    }
}

impl Default for OssConfig {
    fn default() -> (config: Self)
        ensures
            config == (OssConfig {
                region: None,
                endpoint: None,
                access_key_id: None,
                access_key_secret: None,
                security_token: None,
                anonymous: false,
                max_retries: 3,
                connect_timeout_ms: 10_000,
                read_timeout_ms: 30_000,
                max_concurrent_requests: 50,
                max_connections_per_io_thread: 50,
                multipart_size: 8_388_608,
                multipart_max_concurrency: 16,
            }),
    {
        OssConfig {
            region: None,
            endpoint: None,
            access_key_id: None,
            access_key_secret: None,
            security_token: None,
            anonymous: false,
            max_retries: 3,
            connect_timeout_ms: 10_000,
            read_timeout_ms: 30_000,
            max_concurrent_requests: 50,
            max_connections_per_io_thread: 50,
            multipart_size: 8 * 1024 * 1024,
            multipart_max_concurrency: 16,
        }
    }
}

fn copy_text(value: &Option<String>) -> (copy: Option<String>)
    ensures
        copy == *value,
{
    match value {
        Some(text) => Some(text.clone()),
        None => None,
    }
}

fn copy_secret(value: &Option<ObfuscatedString>) -> (copy: Option<ObfuscatedString>)
    ensures
        copy == *value,
{
    match value {
        Some(secret) => Some(secret.clone()),
        None => None,
    }
}

impl Clone for OssConfig {
    fn clone(&self) -> (copy: Self)
        ensures
            copy == *self,
    {
        OssConfig {
            region: copy_text(&self.region),
            endpoint: copy_text(&self.endpoint),
            access_key_id: copy_text(&self.access_key_id),
            access_key_secret: copy_secret(&self.access_key_secret),
            security_token: copy_secret(&self.security_token),
            anonymous: self.anonymous,
            max_retries: self.max_retries,
            connect_timeout_ms: self.connect_timeout_ms,
            read_timeout_ms: self.read_timeout_ms,
            max_concurrent_requests: self.max_concurrent_requests,
            max_connections_per_io_thread: self.max_connections_per_io_thread,
            multipart_size: self.multipart_size,
            multipart_max_concurrency: self.multipart_max_concurrency,
        }
    }
}

/// Appends the line `label` `value` to `lines`.
fn push_line(lines: &mut Vec<String>, label: &str, value: &str)
    ensures
        text::views(final(lines)@) == text::views(old(lines)@).push(label@ + value@),
{
    let line = text::join2(label, value);
    let ghost before = lines@;
    lines.push(line);
    assert(text::views(before.push(line)) =~= text::views(before).push(line@));
}

/// Appends the line `label` `value` to `lines`, where there is a value.
fn push_optional(lines: &mut Vec<String>, label: &str, value: &Option<String>)
    ensures
        text::views(final(lines)@) == text::views(old(lines)@) + optional_line(
            label@,
            text::option_view(*value),
        ),
{
    match value {
        Some(text) => {
            push_line(lines, label, text.as_str());
        },
        None => {
            assert(text::views(lines@) + seq![] =~= text::views(lines@));
        },
    }
}

/// Appends the line `label` `***` to `lines`, where there is a secret.
fn push_secret(lines: &mut Vec<String>, label: &str, secret: &Option<ObfuscatedString>)
    ensures
        text::views(final(lines)@) == text::views(old(lines)@) + secret_line(label@, *secret),
{
    match secret {
        Some(_) => {
            push_line(lines, label, "***");
        },
        None => {
            assert(text::views(lines@) + seq![] =~= text::views(lines@));
        },
    }
}

/// The `Debug` form of an optional text.
fn option_debug_text(value: &Option<String>) -> (shown: String)
    ensures
        shown@ == option_debug(text::option_view(*value)),
{
    match value {
        Some(text) => {
            let inner = debug_text(text.as_str());
            text::join3("Some(", inner.as_str(), ")")
        },
        None => "None".to_owned(),
    }
}

/// Appends one field on a line of its own.
fn append_field(shown: &mut String, name: &str, value: &str)
    ensures
        final(shown)@ == old(shown)@ + field_line(name@, value@),
{
    let line = text::join4("\n    ", name, ": ", value);
    shown.append(line.as_str());
}

impl OssConfig {
    /// The lines of the settings that may be missing.
    pub open spec fn optional_lines(self) -> Seq<Seq<char>> {
        optional_line("Region = "@, text::option_view(self.region))
            + optional_line("Endpoint = "@, text::option_view(self.endpoint))
            + optional_line("Access key id = "@, text::option_view(self.access_key_id))
            + secret_line("Access key secret = "@, self.access_key_secret)
            + secret_line("Security token = "@, self.security_token)
    }

    /// The settings one per line, with the secrets hidden and without those that
    /// are not set.
    pub open spec fn display_lines(self) -> Seq<Seq<char>> {
        self.optional_lines()
            + seq![
                "Anonymous = "@ + text::bool_chars(self.anonymous),
                "Max retries = "@ + text::decimal(self.max_retries as nat),
                "Connect timeout = "@ + text::decimal(self.connect_timeout_ms as nat) + "ms"@,
                "Read timeout = "@ + text::decimal(self.read_timeout_ms as nat) + "ms"@,
                "Max concurrent requests = "@ + text::decimal(self.max_concurrent_requests as nat),
                "Max connections = "@ + text::decimal(self.max_connections_per_io_thread as nat),
                "Multipart size = "@ + text::decimal(self.multipart_size as nat),
                "Multipart max concurrency = "@ + text::decimal(
                    self.multipart_max_concurrency as nat,
                ),
            ]
    }

    /// The settings one per line, with the secrets hidden and without those that
    /// are not set.
    #[must_use]
    pub fn multiline_display(&self) -> (lines: Vec<String>)
        ensures
            text::views(lines@) == self.display_lines(),
    {
        let mut res: Vec<String> = Vec::new();
        assert(text::views(res@) =~= seq![]);
        push_optional(&mut res, "Region = ", &self.region);
        push_optional(&mut res, "Endpoint = ", &self.endpoint);
        push_optional(&mut res, "Access key id = ", &self.access_key_id);
        push_secret(&mut res, "Access key secret = ", &self.access_key_secret);
        push_secret(&mut res, "Security token = ", &self.security_token);
        assert(text::views(res@) =~= self.optional_lines());
        push_line(&mut res, "Anonymous = ", text::bool_text(self.anonymous));
        let retries = text::decimal_text(self.max_retries as u64);
        push_line(&mut res, "Max retries = ", retries.as_str());
        let connect = text::decimal_text(self.connect_timeout_ms);
        let connect_label = text::join2("Connect timeout = ", connect.as_str());
        push_line(&mut res, connect_label.as_str(), "ms");
        let read = text::decimal_text(self.read_timeout_ms);
        let read_label = text::join2("Read timeout = ", read.as_str());
        push_line(&mut res, read_label.as_str(), "ms");
        let requests = text::decimal_text(self.max_concurrent_requests as u64);
        push_line(&mut res, "Max concurrent requests = ", requests.as_str());
        let connections = text::decimal_text(self.max_connections_per_io_thread as u64);
        push_line(&mut res, "Max connections = ", connections.as_str());
        let size = text::decimal_text(self.multipart_size);
        push_line(&mut res, "Multipart size = ", size.as_str());
        let concurrency = text::decimal_text(self.multipart_max_concurrency as u64);
        push_line(&mut res, "Multipart max concurrency = ", concurrency.as_str());
        assert(text::views(res@) =~= self.display_lines());
        res
    }

    /// The endpoint and the region that are used: each as configured where it is;
    /// a missing region is the one that the endpoint names, or the default; a
    /// missing endpoint is that of the region, or of the default region.
    pub open spec fn endpoint_and_region_used(self) -> (Seq<char>, Seq<char>) {
        match (self.endpoint, self.region) {
            (Some(endpoint), Some(region)) => (endpoint@, region@),
            (Some(endpoint), None) => (
                endpoint@,
                match region_of(endpoint@) {
                    Some(region) => region,
                    None => DEFAULT_REGION@,
                },
            ),
            (None, Some(region)) => (endpoint_of(region@), region@),
            (None, None) => (endpoint_of(DEFAULT_REGION@), DEFAULT_REGION@),
        }
    }

    /// The endpoint and the region that are used.
    pub fn endpoint_and_region(&self) -> (used: (String, String))
        ensures
            (used.0@, used.1@) == self.endpoint_and_region_used(),
    {
        match (&self.endpoint, &self.region) {
            (Some(endpoint), Some(region)) => (endpoint.clone(), region.clone()),
            (Some(endpoint), None) => {
                let region = match extract_region(endpoint.as_str()) {
                    Some(region) => region,
                    None => DEFAULT_REGION.to_owned(),
                };
                (endpoint.clone(), region)
            },
            (None, Some(region)) => (
                text::join3("oss-", region.as_str(), ".aliyuncs.com"),
                region.clone(),
            ),
            (None, None) => (
                text::join3("oss-", DEFAULT_REGION, ".aliyuncs.com"),
                DEFAULT_REGION.to_owned(),
            ),
        }
    }

    /// The configuration as one text, with the secrets hidden whether or not they
    /// are set.
    pub open spec fn displayed(self) -> Seq<char> {
        "OssConfig"@
            + field_line("region"@, option_debug(text::option_view(self.region)))
            + field_line("endpoint"@, option_debug(text::option_view(self.endpoint)))
            + field_line("access_key_id"@, option_debug(text::option_view(self.access_key_id)))
            + field_line("access_key_secret"@, "***"@)
            + field_line("security_token"@, "***"@)
            + field_line("anonymous"@, text::bool_chars(self.anonymous))
            + field_line("max_retries"@, text::decimal(self.max_retries as nat))
            + field_line("connect_timeout_ms"@, text::decimal(self.connect_timeout_ms as nat))
            + field_line("read_timeout_ms"@, text::decimal(self.read_timeout_ms as nat))
            + field_line(
                "max_concurrent_requests"@,
                text::decimal(self.max_concurrent_requests as nat),
            )
            + field_line(
                "max_connections_per_io_thread"@,
                text::decimal(self.max_connections_per_io_thread as nat),
            )
    }

    /// The configuration as one text, with the secrets hidden.
    pub fn display(&self) -> (shown: String)
        ensures
            shown@ == self.displayed(),
    {
        let mut shown = "OssConfig".to_owned();
        append_field(&mut shown, "region", option_debug_text(&self.region).as_str());
        append_field(&mut shown, "endpoint", option_debug_text(&self.endpoint).as_str());
        append_field(&mut shown, "access_key_id", option_debug_text(&self.access_key_id).as_str());
        append_field(&mut shown, "access_key_secret", "***");
        append_field(&mut shown, "security_token", "***");
        append_field(&mut shown, "anonymous", text::bool_text(self.anonymous));
        append_field(
            &mut shown,
            "max_retries",
            text::decimal_text(self.max_retries as u64).as_str(),
        );
        append_field(
            &mut shown,
            "connect_timeout_ms",
            text::decimal_text(self.connect_timeout_ms).as_str(),
        );
        append_field(
            &mut shown,
            "read_timeout_ms",
            text::decimal_text(self.read_timeout_ms).as_str(),
        );
        append_field(
            &mut shown,
            "max_concurrent_requests",
            text::decimal_text(self.max_concurrent_requests as u64).as_str(),
        );
        append_field(
            &mut shown,
            "max_connections_per_io_thread",
            text::decimal_text(self.max_connections_per_io_thread as u64).as_str(),
        );
        shown
    }

    /// Whether `self` and `other` differ at most in what their secrets are, not in
    /// which of them are set.
    pub open spec fn same_but_secrets(self, other: OssConfig) -> bool {
        &&& self.access_key_secret is Some == other.access_key_secret is Some
        &&& self.security_token is Some == other.security_token is Some
        &&& self == (OssConfig {
            access_key_secret: self.access_key_secret,
            security_token: self.security_token,
            ..other
        })
    }
}

/// No display of a configuration depends on what its secrets are.
pub proof fn law_displays_hide_secrets(a: OssConfig, b: OssConfig)
    requires
        a.same_but_secrets(b),
    ensures
        a.display_lines() == b.display_lines(),
        a.displayed() == b.displayed(),
{
}

/// The endpoint that is built for a region names that region, where the region
/// has neither a `.` nor a `/`.
pub proof fn law_endpoint_names_its_region(region: Seq<char>)
    requires
        !region.contains('.'),
        !region.contains('/'),
    ensures
        region_of(endpoint_of(region)) == Some(region),
{
    reveal_strlit("oss-");
    reveal_strlit(".aliyuncs.com");
    let endpoint = endpoint_of(region);
    let label = "oss-"@ + region;
    assert(endpoint[0] == 'o');
    assert forall|i: int| 0 <= i < endpoint.len() implies endpoint[i] != '/' by {
        if 4 <= i < 4 + region.len() {
            assert(endpoint[i] == region[i - 4]);
        }
    }
    text::lemma_find_char_unique(endpoint, '/', endpoint.len() as int);
    assert(endpoint.take(endpoint.len() as int) =~= endpoint);
    assert forall|i: int| 0 <= i < label.len() implies endpoint[i] != '.' by {
        if 4 <= i {
            assert(endpoint[i] == region[i - 4]);
        }
    }
    assert(endpoint[label.len() as int] == '.');
    text::lemma_find_char_unique(endpoint, '.', label.len() as int);
    assert(endpoint.take(label.len() as int) =~= label);
    assert(text::split(endpoint, '.')[0] == label);
    assert(label.subrange(0, 4) =~= "oss-"@);
    assert(label.skip(4) =~= region);
}

/// Whether only the region, or only the endpoint that is built for it, is configured
/// makes no difference to which endpoint and region are used, where the region has
/// neither a `.` nor a `/`.
pub proof fn law_region_or_its_endpoint_suffices(by_region: OssConfig, by_endpoint: OssConfig)
    requires
        by_region.endpoint is None,
        by_region.region matches Some(region) && !region@.contains('.') && !region@.contains('/'),
        by_endpoint.region is None,
        by_endpoint.endpoint matches Some(endpoint) && endpoint@ == endpoint_of(
            by_region.region->Some_0@,
        ),
    ensures
        by_endpoint.endpoint_and_region_used() == by_region.endpoint_and_region_used(),
{
    law_endpoint_names_its_region(by_region.region->Some_0@);
}

/// What is configured is used as it is, whatever else is configured. A missing region is
/// the one that the endpoint names, if it names one, or the default; a missing endpoint is
/// that of the region in use.
pub proof fn law_what_is_configured_is_used(
    config: OssConfig,
    used: (String, String),
    endpoint: &str,
    named: Option<String>,
)
    requires
        call_ensures(OssConfig::endpoint_and_region, (&config,), used),
        config.endpoint matches Some(configured) ==> endpoint@ == configured@,
        call_ensures(extract_region, (endpoint,), named),
    ensures
        config.endpoint matches Some(configured) ==> used.0@ == configured@,
        config.region matches Some(configured) ==> used.1@ == configured@,
        config.endpoint is None ==> used.0@ == "oss-"@ + used.1@ + ".aliyuncs.com"@,
        config.endpoint is None && config.region is None ==> used.1@ == "cn-hangzhou"@,
        config.endpoint is Some && config.region is None ==> used.1@ == (match named {
            Some(region) => region@,
            None => "cn-hangzhou"@,
        }),
{
}

/// Whether a dot-separated label that starts with `oss-` starts at `a`.
pub open spec fn region_starts(head: Seq<char>, a: int) -> bool {
    &&& 0 <= a <= head.len() - 4
    &&& a == 0 || head[a - 1] == '.'
    &&& head[a] == 'o' && head[a + 1] == 's' && head[a + 2] == 's' && head[a + 3] == '-'
}

/// Whether the first label that starts with `oss-` starts at `a`, ends at `b`, and goes on
/// with `region`.
pub open spec fn region_stands(head: Seq<char>, a: int, b: int, region: Seq<char>) -> bool {
    &&& region_starts(head, a)
    &&& a + 4 <= b <= head.len()
    &&& b == head.len() || head[b] == '.'
    &&& forall|i: int| a <= i < b ==> #[trigger] head[i] != '.'
    &&& region == head.subrange(a + 4, b)
    &&& forall|earlier: int| earlier < a ==> !#[trigger] region_starts(head, earlier)
}

/// Whether `region` is what follows `oss-` in the first label that starts so.
pub open spec fn names_region(head: Seq<char>, region: Seq<char>) -> bool {
    exists|a: int, b: int| #[trigger] region_stands(head, a, b, region)
}

/// Whether `region` is what follows `oss-` in the first label that starts so, or nothing
/// where no label does.
pub open spec fn is_region_of(head: Seq<char>, region: Option<Seq<char>>) -> bool {
    match region {
        Some(named) => names_region(head, named),
        None => forall|a: int| !#[trigger] region_starts(head, a),
    }
}

/// Whether `endpoint` holds no ASCII letter or digit before `s`, has one there if it is not
/// at its end, and holds no `/` from there to `t`, where the first one stands or it ends.
pub open spec fn head_stands(endpoint: Seq<char>, s: int, t: int) -> bool {
    &&& 0 <= s <= t <= endpoint.len()
    &&& forall|i: int|
        0 <= i < s ==> {
            let c = #[trigger] endpoint[i];
            !('0' <= c <= '9') && !('A' <= c <= 'Z') && !('a' <= c <= 'z')
        }
    &&& s < endpoint.len() ==> {
        let c = endpoint[s];
        '0' <= c <= '9' || 'A' <= c <= 'Z' || 'a' <= c <= 'z'
    }
    &&& forall|i: int| s <= i < t ==> #[trigger] endpoint[i] != '/'
    &&& t < endpoint.len() ==> endpoint[t] == '/'
}

/// The region of an endpoint is what follows `oss-` in the first of its dot-separated
/// labels that starts so, between its first letter or digit and the next `/`; there is
/// none exactly where no label starts so.
pub proof fn law_region_follows_the_first_oss_label(
    endpoint: &str,
    region: Option<String>,
    s: int,
    t: int,
)
    requires
        call_ensures(extract_region, (endpoint,), region),
        head_stands(endpoint@, s, t),
    ensures
        is_region_of(
            endpoint@.subrange(s, t),
            match region {
                Some(named) => Some(named@),
                None => None,
            },
        ),
{
    let head = endpoint@.subrange(s, t);
    lemma_from_first_alphanumeric(endpoint@, s);
    let body = endpoint@.skip(s);
    assert forall|i: int| 0 <= i < t - s implies body[i] != '/' by {
        assert(body[i] == endpoint@[s + i]);
    }
    text::lemma_find_char_unique(body, '/', t - s);
    assert(endpoint_head(endpoint@) =~= head);
    lemma_first_region(head);
}

proof fn lemma_from_first_alphanumeric(endpoint: Seq<char>, s: int)
    requires
        0 <= s <= endpoint.len(),
        forall|i: int| 0 <= i < s ==> !ascii_alphanumeric(#[trigger] endpoint[i]),
        s < endpoint.len() ==> ascii_alphanumeric(endpoint[s]),
    ensures
        from_first_alphanumeric(endpoint) == endpoint.skip(s),
    decreases s,
{
    if s == 0 {
        assert(endpoint.skip(0) =~= endpoint);
    } else {
        assert(!ascii_alphanumeric(endpoint[0]));
        assert forall|i: int| 0 <= i < s - 1 implies !ascii_alphanumeric(
            #[trigger] endpoint.skip(1)[i],
        ) by {
            assert(endpoint.skip(1)[i] == endpoint[i + 1]);
        }
        lemma_from_first_alphanumeric(endpoint.skip(1), s - 1);
        assert(endpoint.skip(1).skip(s - 1) =~= endpoint.skip(s));
    }
}

proof fn lemma_first_region(head: Seq<char>)
    ensures
        is_region_of(head, first_region(text::split(head, '.'))),
    decreases head.len(),
{
    reveal_strlit("oss-");
    let at = text::find_char(head, '.');
    text::lemma_find_char(head, '.');
    let label = head.take(at);
    let labels = text::split(head, '.');
    text::law_occurrences_hold_the_characters(label, "oss-"@, 0);
    assert(labels[0] =~= label);
    if text::occurs_at(label, "oss-"@, 0) {
        assert("oss-"@[0] == label[0] && "oss-"@[1] == label[1] && "oss-"@[2] == label[2]
            && "oss-"@[3] == label[3]);
        assert(label.skip(4) =~= head.subrange(4, at));
        let start = 0int;
        let region = label.skip(4);
        assert(region_stands(head, start, at, region));
        assert(first_region(labels) == Some(region));
        assert(names_region(head, region));
    } else {
        assert(first_region(labels) == first_region(labels.skip(1)));
        assert(!region_starts(head, 0)) by {
            if region_starts(head, 0) {
                assert(at >= 4);
                assert(text::holds_at(label, "oss-"@, 0));
            }
        }
        if at < head.len() {
            let rest = head.skip(at + 1);
            assert(labels.skip(1) =~= text::split(rest, '.'));
            lemma_first_region(rest);
            assert forall|a: int| a <= at implies !#[trigger] region_starts(head, a) by {
                if a > 0 && region_starts(head, a) {
                    assert(head[a - 1] == '.');
                }
            }
            assert forall|a: int| #[trigger] region_starts(head, a) implies region_starts(
                rest,
                a - at - 1,
            ) by {}
            match first_region(labels) {
                Some(region) => {
                    let (a, b) = choose|a: int, b: int| #[trigger]
                        region_stands(rest, a, b, region);
                    assert(rest.subrange(a + 4, b) =~= head.subrange(a + at + 5, b + at + 1));
                    assert forall|i: int| a + at + 1 <= i < b + at + 1 implies
                        #[trigger] head[i] != '.' by {
                        assert(rest[i - at - 1] == head[i]);
                    }
                    assert(region_starts(head, a + at + 1)) by {
                        assert(rest[a] == head[a + at + 1]);
                        assert(rest[a + 1] == head[a + at + 2]);
                        assert(rest[a + 2] == head[a + at + 3]);
                        assert(rest[a + 3] == head[a + at + 4]);
                    }
                    assert(region_stands(head, a + at + 1, b + at + 1, region));
                    assert(names_region(head, region));
                },
                None => {
                    assert forall|a: int| !#[trigger] region_starts(head, a) by {
                        if region_starts(head, a) {
                            assert(region_starts(rest, a - at - 1));
                        }
                    }
                },
            }
        } else {
            assert(labels.skip(1) =~= Seq::<Seq<char>>::empty());
            assert(first_region(Seq::<Seq<char>>::empty()) is None);
            assert forall|a: int| !#[trigger] region_starts(head, a) by {
                if a > 0 && region_starts(head, a) {
                    assert(head[a - 1] == '.');
                }
            }
        }
    }
}

/// A line for each setting that is configured, in a fixed order and with its value, then
/// one for each of the other settings; of a secret only that it is set.
pub proof fn law_every_setting_has_its_line(config: OssConfig, lines: Vec<String>)
    requires
        call_ensures(OssConfig::multiline_display, (&config,), lines),
    ensures
        ({
            let region = if config.region is Some { 1int } else { 0 };
            let endpoint = if config.endpoint is Some { region + 1 } else { region };
            let id = if config.access_key_id is Some { endpoint + 1 } else { endpoint };
            let secret = if config.access_key_secret is Some { id + 1 } else { id };
            let token = if config.security_token is Some { secret + 1 } else { secret };
            &&& lines@.len() == token + 8
            &&& config.region matches Some(value) ==> lines@[0]@ == "Region = "@ + value@
            &&& config.endpoint matches Some(value) ==> lines@[region]@ == "Endpoint = "@ + value@
            &&& config.access_key_id matches Some(value) ==> lines@[endpoint]@
                == "Access key id = "@ + value@
            &&& config.access_key_secret is Some ==> lines@[id]@ == "Access key secret = "@ + "***"@
            &&& config.security_token is Some ==> lines@[secret]@ == "Security token = "@ + "***"@
            &&& lines@[token]@ == "Anonymous = "@ + (if config.anonymous {
                "true"@
            } else {
                "false"@
            })
            &&& lines@[token + 1]@ == "Max retries = "@ + text::decimal(config.max_retries as nat)
            &&& lines@[token + 2]@ == "Connect timeout = "@ + text::decimal(
                config.connect_timeout_ms as nat,
            ) + "ms"@
            &&& lines@[token + 3]@ == "Read timeout = "@ + text::decimal(
                config.read_timeout_ms as nat,
            ) + "ms"@
            &&& lines@[token + 4]@ == "Max concurrent requests = "@ + text::decimal(
                config.max_concurrent_requests as nat,
            )
            &&& lines@[token + 5]@ == "Max connections = "@ + text::decimal(
                config.max_connections_per_io_thread as nat,
            )
            &&& lines@[token + 6]@ == "Multipart size = "@ + text::decimal(
                config.multipart_size as nat,
            )
            &&& lines@[token + 7]@ == "Multipart max concurrency = "@ + text::decimal(
                config.multipart_max_concurrency as nat,
            )
        }),
{
    let shown = text::views(lines@);
    assert(shown == config.display_lines());
    assert(shown.len() == lines@.len());
    assert forall|i: int| 0 <= i < lines@.len() implies #[trigger] lines@[i]@ == shown[i] by {}
}

/// The `Debug` form of an optional text as it stands in a display.
pub open spec fn shown_option(value: Option<String>) -> Seq<char> {
    match value {
        Some(text) => "Some("@ + str_debug(text@) + ")"@,
        None => "None"@,
    }
}

/// The one-text display names every setting on a line of its own, with its value, and
/// shows three stars for each secret.
pub proof fn law_display_shows_every_setting(config: OssConfig, shown: String)
    requires
        call_ensures(OssConfig::display, (&config,), shown),
    ensures
        shown@ == "OssConfig"@ + ("\n    "@ + "region"@ + ": "@ + shown_option(config.region)) + (
        "\n    "@ + "endpoint"@ + ": "@ + shown_option(config.endpoint)) + ("\n    "@
            + "access_key_id"@ + ": "@ + shown_option(config.access_key_id)) + ("\n    "@
            + "access_key_secret"@ + ": "@ + "***"@) + ("\n    "@ + "security_token"@ + ": "@
            + "***"@) + ("\n    "@ + "anonymous"@ + ": "@ + (if config.anonymous {
            "true"@
        } else {
            "false"@
        })) + ("\n    "@ + "max_retries"@ + ": "@ + text::decimal(config.max_retries as nat)) + (
        "\n    "@ + "connect_timeout_ms"@ + ": "@ + text::decimal(
            config.connect_timeout_ms as nat,
        )) + ("\n    "@ + "read_timeout_ms"@ + ": "@ + text::decimal(config.read_timeout_ms as nat))
            + ("\n    "@ + "max_concurrent_requests"@ + ": "@ + text::decimal(
            config.max_concurrent_requests as nat,
        )) + ("\n    "@ + "max_connections_per_io_thread"@ + ": "@ + text::decimal(
            config.max_connections_per_io_thread as nat,
        )),
{
}

/// A secret that is hidden is the one that is read again.
pub proof fn law_secrets_read_back(secret: String, hidden: ObfuscatedString, read: &String)
    requires
        call_ensures(ObfuscatedString::new, (secret,), hidden),
        call_ensures(ObfuscatedString::as_string, (&hidden,), read),
    ensures
        read@ == secret@,
{
}

} // verus!
