//! Redaction of the log lines of cubeb, the audio library.
use vstd::prelude::*;

use crate::pattern::{find, regex_find};
use crate::profile::{BuildProfile, Platform};
use crate::redaction::{logged, redact_for_logging, redaction_reveals_little};
use crate::text::{
    byte_len, contains_text, cut_after, cuts, empty_slice, has_text, occurs_at, slice, slice_bytes,
    slice_of_beginning, slices_join, substring, whole_slice,
};

verus! {

/// One kind of log line that holds sensitive text, told by the parts of it that
/// are not sensitive.
#[derive(Clone, Debug)]
pub struct RedactionSpec {
    /// A regular expression that tells two things if it matches: that the line
    /// is to be redacted, and the first part of it that is not sensitive.
    /// Everything before that part is redacted, and everything from its end to
    /// the first match of `rest_to_keep`.
    ///
    /// cubeb cuts its lines off after 256 characters, so the rest of a line may
    /// be missing. A line with a recognisable beginning is redacted all the
    /// same.
    pub first_to_keep: String,
    /// The further parts to keep, in the order in which they stand in the line.
    /// What stands between one match and the next is redacted, as is what
    /// follows the last match. From the first of them that does not match,
    /// the remaining line is taken to be sensitive.
    pub rest_to_keep: Vec<String>,
}

/// A [`RedactionSpec`] as its regular expressions: the first part to keep, then the others.
pub type SpecPatterns = (Seq<char>, Seq<Seq<char>>);

impl View for RedactionSpec {
    type V = SpecPatterns;

    open spec fn view(&self) -> SpecPatterns {
        (self.first_to_keep@, self.rest_to_keep@.map_values(|p: String| p@))
    }
}

/// A part of a text: the byte offsets at which it starts and ends.
pub type Segment = (usize, usize);

/// The matches of the regular expressions in `rest` from the byte offset `from`
/// on, each sought after the end of the one before, up to the first that is
/// not found.
pub open spec fn later_segments(text: Seq<char>, rest: Seq<Seq<char>>, from: int) -> Seq<Segment>
    decreases rest.len(),
{
    if rest.len() == 0 {
        Seq::empty()
    } else {
        match regex_find(rest[0], slice(text, from, byte_len(text))) {
            Some(Some((start, end))) => seq![((from + start) as usize, (from + end) as usize)]
                + later_segments(text, rest.drop_first(), from + end),
            _ => Seq::empty(),
        }
    }
}

/// The parts of `text` to keep under `patterns`; `None` if the text is not of
/// the kind that they tell. A first regular expression that cannot be compiled
/// tells nothing, and so nothing of the text is kept.
pub open spec fn kept_segments(patterns: SpecPatterns, text: Seq<char>) -> Option<Seq<Segment>> {
    match regex_find(patterns.0, text) {
        Some(None) => None,
        Some(Some((start, end))) => Some(
            seq![(start, end)] + later_segments(text, patterns.1, end as int),
        ),
        None => Some(Seq::empty()),
    }
}

/// The segments lie in `text`, one after the other, and none of them cuts a
/// character.
pub open spec fn segments_fit(text: Seq<char>, segments: Seq<Segment>) -> bool {
    &&& forall|i: int|
        0 <= i < segments.len() ==> {
            &&& (#[trigger] segments[i]).0 <= segments[i].1
            &&& cuts(text, segments[i].0 as int)
            &&& cuts(text, segments[i].1 as int)
        }
    &&& forall|i: int, j: int|
        0 <= i < j < segments.len() ==> (#[trigger] segments[i]).1 <= (#[trigger] segments[j]).0
}

/// What is logged of `text` from the byte offset `from` on, if the given
/// segments of it are kept and all else is sensitive.
pub open spec fn logged_outside(
    build: BuildProfile,
    text: Seq<char>,
    segments: Seq<Segment>,
    from: int,
) -> Seq<char>
    decreases segments.len(),
{
    if segments.len() == 0 {
        logged(build, slice(text, from, byte_len(text)))
    } else {
        let (start, end) = segments[0];
        logged(build, slice(text, from, start as int)) + slice(text, start as int, end as int)
            + logged_outside(build, text, segments.drop_first(), end as int)
    }
}

/// What is logged of `text` under one kind of line.
pub open spec fn logged_if_matching(
    build: BuildProfile,
    patterns: SpecPatterns,
    text: Seq<char>,
) -> Seq<char> {
    match kept_segments(patterns, text) {
        None => text,
        Some(segments) => logged_outside(build, text, segments, 0),
    }
}

/// Redacts all of `text` but the given segments.
pub fn redact_outside(build: &BuildProfile, text: &str, segments: &Vec<Segment>) -> (out: String)
    requires
        segments_fit(text@, segments@),
    ensures
        out@ == logged_outside(*build, text@, segments@, 0),
{
    let mut out = String::new();
    let mut from: usize = 0;
    let len: usize = text.as_bytes().len();
    proof {
        whole_slice(text@);
        assert(segments@.skip(0) =~= segments@);
        assert(out@ + logged_outside(*build, text@, segments@, 0) =~= logged_outside(
            *build,
            text@,
            segments@,
            0,
        ));
    }
    for i in 0..segments.len()
        invariant
            len == byte_len(text@),
            cuts(text@, from as int),
            segments_fit(text@, segments@),
            from == if i == 0 { 0 } else { segments@[i - 1].1 },
            out@ + logged_outside(*build, text@, segments@.skip(i as int), from as int)
                == logged_outside(*build, text@, segments@, 0),
    {
        let ghost rest = segments@.skip(i as int);
        let ghost before = out@;
        let (start, end) = segments[i];
        proof {
            assert(rest[0] == (start, end));
            assert(rest.drop_first() =~= segments@.skip(i + 1));
        }
        out.append(redact_for_logging(build, substring(text, from, start)).as_str());
        out.append(substring(text, start, end));
        proof {
            assert(out@ + logged_outside(*build, text@, rest.drop_first(), end as int) =~= before
                + logged_outside(*build, text@, rest, from as int));
        }
        from = end;
    }
    proof {
        assert(segments@.skip(segments@.len() as int) =~= Seq::<Segment>::empty());
        whole_slice(text@);
    }
    out.append(redact_for_logging(build, substring(text, from, len)).as_str());
    out
}

impl RedactionSpec {
    /// The parts of `text` to keep, or `None` if the text is not of this kind.
    pub fn find_segments(&self, text: &str) -> (found: Option<Vec<Segment>>)
        ensures
            match found {
                Some(segments) => kept_segments(self@, text@) == Some(segments@) && segments_fit(
                    text@,
                    segments@,
                ),
                None => kept_segments(self@, text@) is None,
            },
            found is None <==> regex_find(self.first_to_keep@, text@) == Some(None::<Segment>),
            found matches Some(segments) ==> (segments@.len() > 0 ==> {
                &&& regex_find(self.first_to_keep@, text@) == Some(Some(segments@[0]))
                &&& segments@.len() <= self.rest_to_keep@.len() + 1
                &&& forall|i: int|
                    0 <= i < segments@.len() - 1 ==> regex_find(
                        (#[trigger] self.rest_to_keep@[i])@,
                        slice(text@, segments@[i].1 as int, byte_len(text@)),
                    ) == Some(
                        Some(
                            (
                                (segments@[i + 1].0 - segments@[i].1) as usize,
                                (segments@[i + 1].1 - segments@[i].1) as usize,
                            ),
                        ),
                    )
                &&& segments@.len() <= self.rest_to_keep@.len() ==> !(regex_find(
                    self.rest_to_keep@[segments@.len() - 1]@,
                    slice(text@, segments@.last().1 as int, byte_len(text@)),
                ) matches Some(Some(_)))
            }),
    {
        let mut segments: Vec<Segment> = Vec::new();
        let (start, end) = match find(self.first_to_keep.as_str(), text) {
            Ok(None) => {
                return None;
            },
            Err(_) => {
                proof {
                    assert(segments@ =~= Seq::<Segment>::empty());
                }
                return Some(segments);
            },
            Ok(Some(span)) => span,
        };
        segments.push((start, end));
        let len: usize = text.as_bytes().len();
        let ghost rest = self@.1;
        let ghost all = kept_segments(self@, text@)->0;
        let mut from: usize = end;
        proof {
            whole_slice(text@);
            assert(rest.skip(0) =~= rest);
            assert(segments@ =~= seq![(start, end)]);
        }
        for i in 0..self.rest_to_keep.len()
            invariant
                rest == self@.1,
                kept_segments(self@, text@) == Some(all),
                len == byte_len(text@),
                cuts(text@, len as int),
                segments_fit(text@, segments@),
                segments@.len() > 0,
                from == segments@.last().1,
                segments@.len() == i + 1,
                regex_find(self.first_to_keep@, text@) == Some(Some(segments@[0])),
                forall|j: int|
                    0 <= j < i ==> regex_find(
                        (#[trigger] self.rest_to_keep@[j])@,
                        slice(text@, segments@[j].1 as int, byte_len(text@)),
                    ) == Some(
                        Some(
                            (
                                (segments@[j + 1].0 - segments@[j].1) as usize,
                                (segments@[j + 1].1 - segments@[j].1) as usize,
                            ),
                        ),
                    ),
                all == segments@ + later_segments(text@, rest.skip(i as int), from as int),
        {
            let ghost left = rest.skip(i as int);
            let ghost before = segments@;
            proof {
                assert(left[0] == self.rest_to_keep@[i as int]@);
                assert(left.drop_first() =~= rest.skip(i + 1));
            }
            match find(self.rest_to_keep[i].as_str(), substring(text, from, len)) {
                Ok(Some((start, end))) => {
                    proof {
                        slice_bytes(text@, from as int, len as int);
                        cut_after(text@, from as int, start as int);
                        cut_after(text@, from as int, end as int);
                    }
                    segments.push((from + start, from + end));
                    from = from + end;
                    proof {
                        assert(segments@ =~= before + seq![segments@.last()]);
                        assert(all =~= segments@ + later_segments(
                            text@,
                            left.drop_first(),
                            from as int,
                        ));
                    }
                },
                _ => {
                    proof {
                        assert(all =~= segments@);
                    }
                    return Some(segments);
                },
            }
        }
        proof {
            assert(all =~= segments@);
        }
        Some(segments)
    }

    /// Redacts `text` if it is of this kind, and leaves any other text as it is.
    pub fn redact_if_matching(&self, build: &BuildProfile, text: String) -> (out: String)
        ensures
            out@ == logged_if_matching(*build, self@, text@),
            build.full_logs() ==> out@ == text@,
            text@.len() == 0 ==> out@.len() == 0,
    {
        match self.find_segments(text.as_str()) {
            None => text,
            Some(segments) => {
                proof {
                    if build.full_logs() {
                        full_logs_leave_text(*build, text@, segments@);
                    }
                    if text@.len() == 0 {
                        whole_slice(text@);
                        nothing_is_logged_of_empty_text(*build, text@, segments@, 0);
                    }
                }
                redact_outside(build, text.as_str(), &segments)
            },
        }
    }
}

/// The regular expressions of a list of line kinds.
pub open spec fn patterns_of(specs: Seq<RedactionSpec>) -> Seq<SpecPatterns> {
    specs.map_values(|spec: RedactionSpec| spec@)
}

/// The lines of cubeb's WASAPI backend (cubeb_wasapi.cpp) that hold names or
/// identifiers of devices.
pub open spec fn windows_patterns() -> Seq<SpecPatterns> {
    seq![
        // wasapi_find_bt_handsfree_output_device
        (r"Found matching device for "@, seq![": "@]),
        // wasapi_collection_notification_client::OnDefaultDeviceChanged. The
        // line ends with a single period.
        (r"collection: Audio device default changed, id = "@, seq![r"\.$"@]),
        // wasapi_endpoint_notification_client::OnDefaultDeviceChanged
        (r"endpoint: Audio device default changed flow=.* role=.* new_device_id="@, seq![r"\.$"@]),
        // wasapi_collection_notification_client::OnDeviceStateChanged
        (r"collection: Audio device state changed, id = "@, seq![", state =.*"@]),
    ]
}

/// The lines of cubeb's CoreAudio backend (cubeb-coreaudio-rs) that hold names
/// or identifiers of devices.
pub open spec fn macos_patterns() -> Seq<SpecPatterns> {
    seq![
        // audiounit_get_devices_of_type
        (r"Device \d+ \("@, seq![r"\) has \d+.*channels"@]),
        (r"Cannot get the channel count for device \d+ \("@, seq![r"\)\. Ignored\."@]),
        // should_block_vpio_for_device_pair
        (
            "(Input|Output) uid=\""@,
            seq![
                "\", model_uid=\""@,
                "\", transport_type=.*, source=.*, source_name=\""@,
                "\", name=\""@,
                "\", manufacturer=\".*\""@,
            ],
        ),
    ]
}

/// The lines of cubeb's PulseAudio backend (cubeb-pulse-rs) that hold names or
/// identifiers of devices.
pub open spec fn linux_patterns() -> Seq<SpecPatterns> {
    seq![
        // server_info_cb::sink_info_cb
        (
            "PulseAudio default sink info: name="@,
            seq![", description="@, r", driver=.*, latency=\d+"@],
        ),
        // server_info_cb
        (
            r"PulseAudio server info: server_name=.*, default_sink_name="@,
            seq![", default_source_name="@],
        ),
    ]
}

/// The lines of all backends whose rules are in force.
pub open spec fn cubeb_patterns(build: BuildProfile) -> Seq<SpecPatterns> {
    (if build.covers(Platform::Windows) {
        windows_patterns()
    } else {
        Seq::empty()
    }) + (if build.covers(Platform::MacOs) {
        macos_patterns()
    } else {
        Seq::empty()
    }) + (if build.covers(Platform::Linux) {
        linux_patterns()
    } else {
        Seq::empty()
    })
}

/// The line kind with the given regular expressions.
fn line_kind(first: &str, rest: &[&str]) -> (spec: RedactionSpec)
    ensures
        spec@ == (first@, rest@.map_values(|p: &str| p@)),
{
    let mut rest_to_keep: Vec<String> = Vec::new();
    for i in 0..rest.len()
        invariant
            rest_to_keep@.len() == i,
            forall|j: int| 0 <= j < i ==> (#[trigger] rest_to_keep@[j])@ == rest@[j]@,
    {
        rest_to_keep.push(rest[i].to_owned());
    }
    let spec = RedactionSpec { first_to_keep: first.to_owned(), rest_to_keep };
    proof {
        assert(spec@.1 =~= rest@.map_values(|p: &str| p@));
    }
    spec
}

/// Appends the kinds of line of [`windows_patterns`].
fn append_windows_kinds(out: &mut Vec<RedactionSpec>)
    ensures
        patterns_of(final(out)@) == patterns_of(old(out)@) + windows_patterns(),
{
    let a = line_kind(r"Found matching device for ", &[": "]);
    let b = line_kind(r"collection: Audio device default changed, id = ", &[r"\.$"]);
    let c = line_kind(
        r"endpoint: Audio device default changed flow=.* role=.* new_device_id=",
        &[r"\.$"],
    );
    let d = line_kind(r"collection: Audio device state changed, id = ", &[", state =.*"]);
    proof {
        let w = windows_patterns();
        assert(a@.1 =~= w[0].1);
        assert(b@.1 =~= w[1].1);
        assert(c@.1 =~= w[2].1);
        assert(d@.1 =~= w[3].1);
    }
    out.push(a);
    out.push(b);
    out.push(c);
    out.push(d);
    proof {
        assert(patterns_of(out@) =~= patterns_of(old(out)@) + windows_patterns());
    }
}

/// Appends the kinds of line of [`macos_patterns`].
fn append_macos_kinds(out: &mut Vec<RedactionSpec>)
    ensures
        patterns_of(final(out)@) == patterns_of(old(out)@) + macos_patterns(),
{
    let a = line_kind(r"Device \d+ \(", &[r"\) has \d+.*channels"]);
    let b = line_kind(
        r"Cannot get the channel count for device \d+ \(",
        &[r"\)\. Ignored\."],
    );
    let c = line_kind(
        "(Input|Output) uid=\"",
        &[
            "\", model_uid=\"",
            "\", transport_type=.*, source=.*, source_name=\"",
            "\", name=\"",
            "\", manufacturer=\".*\"",
        ],
    );
    proof {
        let m = macos_patterns();
        assert(a@.1 =~= m[0].1);
        assert(b@.1 =~= m[1].1);
        assert(c@.1 =~= m[2].1);
    }
    out.push(a);
    out.push(b);
    out.push(c);
    proof {
        assert(patterns_of(out@) =~= patterns_of(old(out)@) + macos_patterns());
    }
}

/// Appends the kinds of line of [`linux_patterns`].
fn append_linux_kinds(out: &mut Vec<RedactionSpec>)
    ensures
        patterns_of(final(out)@) == patterns_of(old(out)@) + linux_patterns(),
{
    let a = line_kind(
        "PulseAudio default sink info: name=",
        &[", description=", r", driver=.*, latency=\d+"],
    );
    let b = line_kind(
        r"PulseAudio server info: server_name=.*, default_sink_name=",
        &[", default_source_name="],
    );
    proof {
        let l = linux_patterns();
        assert(a@.1 =~= l[0].1);
        assert(b@.1 =~= l[1].1);
    }
    out.push(a);
    out.push(b);
    proof {
        assert(patterns_of(out@) =~= patterns_of(old(out)@) + linux_patterns());
    }
}

/// The places where friendly names, device identifiers and group identifiers
/// are logged, for the backends in force and where those are potentially
/// sensitive.
///
/// One more is not among them: the list of all devices that cubeb.c logs, which
/// is suppressed as a whole.
pub fn cubeb_redaction_specs(build: &BuildProfile) -> (specs: Vec<RedactionSpec>)
    ensures
        patterns_of(specs@) == cubeb_patterns(*build),
{
    let mut out: Vec<RedactionSpec> = Vec::new();
    proof {
        assert(patterns_of(out@) =~= Seq::empty());
    }
    if build.covers_platform(Platform::Windows) {
        append_windows_kinds(&mut out);
    }
    if build.covers_platform(Platform::MacOs) {
        append_macos_kinds(&mut out);
    }
    if build.covers_platform(Platform::Linux) {
        append_linux_kinds(&mut out);
    }
    proof {
        assert(patterns_of(out@) =~= cubeb_patterns(*build));
    }
    out
}

/// What is logged of `text` under several kinds of line, each applied to what
/// the one before left.
pub open spec fn logged_under(
    build: BuildProfile,
    kinds: Seq<SpecPatterns>,
    text: Seq<char>,
) -> Seq<char>
    decreases kinds.len(),
{
    if kinds.len() == 0 {
        text
    } else {
        logged_if_matching(build, kinds.last(), logged_under(build, kinds.drop_last(), text))
    }
}

/// The line lists all devices. Such lines are many, and are left out of the log.
pub open spec fn lists_devices(text: Seq<char>) -> bool {
    contains_text(text, "DeviceID"@) && contains_text(text, "Name"@)
}

/// Where the line names its origin: `file:line:` and any whitespace after it.
pub open spec fn line_identifier(text: Seq<char>) -> Option<Segment> {
    match regex_find(r"[^\s]+:\d+:\s*"@, text) {
        Some(found) => found,
        None => None,
    }
}

/// The byte offset at which the whitespace at the end of the line starts.
pub open spec fn ending_whitespace(text: Seq<char>) -> int {
    match regex_find(r"\s*$"@, text) {
        Some(Some((start, _))) => start as int,
        _ => byte_len(text),
    }
}

/// The byte offset at which the line's body ends: where its ending whitespace
/// starts, unless that lies in the identifier. Where nothing but whitespace
/// follows `file:line:`, that whitespace belongs to the identifier, and the body
/// is empty.
pub open spec fn body_end(text: Seq<char>) -> int {
    match line_identifier(text) {
        Some((_, end)) => if end > ending_whitespace(text) {
            end as int
        } else {
            ending_whitespace(text)
        },
        None => ending_whitespace(text),
    }
}

/// What is logged of a line that names its origin at `ident` and whose ending
/// whitespace starts at `whitespace`: the two as they are, and what stands
/// between them under the given kinds. A line that does not name its origin is
/// logged as a whole like sensitive text, and marked.
pub open spec fn logged_parts(
    build: BuildProfile,
    kinds: Seq<SpecPatterns>,
    text: Seq<char>,
    ident: Option<Segment>,
    whitespace: int,
) -> Seq<char> {
    match ident {
        None => "BAD CUBEB FORMAT: "@ + logged(build, text),
        Some((start, end)) => slice(text, start as int, end as int) + logged_under(
            build,
            kinds,
            slice(text, end as int, whitespace),
        ) + slice(text, whitespace, byte_len(text)),
    }
}

/// What is logged of a line of cubeb, if anything.
pub open spec fn logged_line(build: BuildProfile, text: Seq<char>) -> Option<Seq<char>> {
    if lists_devices(text) {
        None
    } else {
        Some(
            logged_parts(
                build,
                cubeb_patterns(build),
                text,
                line_identifier(text),
                body_end(text),
            ),
        )
    }
}

/// Applies the kinds of line one after the other.
pub fn redact_under(build: &BuildProfile, specs: &Vec<RedactionSpec>, text: &str) -> (out: String)
    ensures
        out@ == logged_under(*build, patterns_of(specs@), text@),
        build.full_logs() ==> out@ == text@,
        text@.len() == 0 ==> out@.len() == 0,
{
    let mut out: String = text.to_owned();
    let ghost kinds = patterns_of(specs@);
    for i in 0..specs.len()
        invariant
            kinds == patterns_of(specs@),
            out@ == logged_under(*build, kinds.take(i as int), text@),
            build.full_logs() ==> out@ == text@,
            text@.len() == 0 ==> out@.len() == 0,
    {
        proof {
            assert(kinds.take(i + 1).drop_last() =~= kinds.take(i as int));
            assert(kinds.take(i + 1).last() == specs@[i as int]@);
        }
        out = specs[i].redact_if_matching(build, out);
    }
    proof {
        assert(kinds.take(specs@.len() as int) =~= kinds);
    }
    out
}

/// Redacts a line, given where it names its origin and where its ending
/// whitespace starts.
pub fn redact_parts(
    build: &BuildProfile,
    specs: &Vec<RedactionSpec>,
    text: &str,
    ident: Option<Segment>,
    whitespace: usize,
) -> (out: String)
    requires
        cuts(text@, whitespace as int),
        ident matches Some((start, end)) ==> start <= end <= whitespace && cuts(text@, start as int)
            && cuts(text@, end as int),
    ensures
        out@ == logged_parts(*build, patterns_of(specs@), text@, ident, whitespace as int),
        ident matches Some((start, end)) ==> (build.full_logs() || end == whitespace ==> out@
            == slice(text@, start as int, byte_len(text@))),
{
    let mut out = String::new();
    match ident {
        None => {
            out.append("BAD CUBEB FORMAT: ");
            out.append(redact_for_logging(build, text).as_str());
        },
        Some((start, end)) => {
            let len: usize = text.as_bytes().len();
            proof {
                whole_slice(text@);
                slices_join(text@, start as int, end as int, whitespace as int);
                slices_join(text@, start as int, whitespace as int, len as int);
                if end == whitespace {
                    empty_slice(text@, end as int);
                }
            }
            out.append(substring(text, start, end));
            out.append(redact_under(build, specs, substring(text, end, whitespace)).as_str());
            out.append(substring(text, whitespace, len));
        },
    }
    proof {
        assert(out@ =~= logged_parts(
            *build,
            patterns_of(specs@),
            text@,
            ident,
            whitespace as int,
        ));
    }
    out
}

/// Where the line names its origin.
pub fn find_identifier(text: &str) -> (ident: Option<Segment>)
    ensures
        ident == line_identifier(text@),
        ident matches Some((start, end)) ==> start <= end && cuts(text@, start as int) && cuts(
            text@,
            end as int,
        ),
{
    match find(r"[^\s]+:\d+:\s*", text) {
        Ok(found) => found,
        Err(_) => None,
    }
}

/// The byte offset at which the whitespace at the end of the line starts.
pub fn find_ending_whitespace(text: &str) -> (start: usize)
    ensures
        start == ending_whitespace(text@),
        cuts(text@, start as int),
{
    match find(r"\s*$", text) {
        Ok(Some((start, _))) => start,
        _ => {
            proof {
                whole_slice(text@);
            }
            text.as_bytes().len()
        },
    }
}

/// Redacts a line of cubeb's log; `None` if it is to be left out of the log. A
/// line without a body is logged from its identifier on as it is.
pub fn do_cubeb_redactions(build: &BuildProfile, text: &str) -> (out: Option<String>)
    ensures
        match out {
            Some(line) => logged_line(*build, text@) == Some(line@),
            None => logged_line(*build, text@) is None,
        },
        out matches Some(line) ==> (line_identifier(text@) matches Some((start, end)) ==> (
        build.full_logs() || ending_whitespace(text@) <= end ==> line@ == slice(
            text@,
            start as int,
            byte_len(text@),
        ))),
{
    if has_text(text, "DeviceID") && has_text(text, "Name") {
        return None;
    }
    let ident = find_identifier(text);
    let mut whitespace: usize = find_ending_whitespace(text);
    if let Some((_, end)) = ident {
        if end > whitespace {
            whitespace = end;
        }
    }
    let specs = cubeb_redaction_specs(build);
    Some(redact_parts(build, &specs, text, ident, whitespace))
}

/// Nothing is logged of an empty text, whichever segments of it are kept.
pub proof fn nothing_is_logged_of_empty_text(
    build: BuildProfile,
    text: Seq<char>,
    segments: Seq<Segment>,
    from: int,
)
    requires
        text.len() == 0,
        segments_fit(text, segments),
        cuts(text, from),
    ensures
        logged_outside(build, text, segments, from).len() == 0,
    decreases segments.len(),
{
    empty_slice(text, 0);
    if segments.len() > 0 {
        let rest = segments.drop_first();
        assert forall|i: int| 0 <= i < rest.len() implies #[trigger] rest[i] == segments[i + 1] by {}
        nothing_is_logged_of_empty_text(build, text, rest, segments[0].1 as int);
    }
}

/// A build that shows full logs leaves a text as it is, whichever segments of
/// it are kept.
pub proof fn full_logs_leave_text(
    build: BuildProfile,
    text: Seq<char>,
    segments: Seq<Segment>,
)
    requires
        build.full_logs(),
        segments_fit(text, segments),
    ensures
        logged_outside(build, text, segments, 0) == text,
{
    whole_slice(text);
    full_logs_leave_tail(build, text, segments, 0);
}

/// A build that shows full logs leaves all that follows an offset as it is.
proof fn full_logs_leave_tail(
    build: BuildProfile,
    text: Seq<char>,
    segments: Seq<Segment>,
    from: int,
)
    requires
        build.full_logs(),
        segments_fit(text, segments),
        cuts(text, from),
        segments.len() > 0 ==> from <= segments[0].0,
    ensures
        logged_outside(build, text, segments, from) == slice(text, from, byte_len(text)),
    decreases segments.len(),
{
    if segments.len() > 0 {
        let (start, end) = segments[0];
        let rest = segments.drop_first();
        assert forall|i: int| 0 <= i < rest.len() implies #[trigger] rest[i] == segments[i + 1] by {}
        full_logs_leave_tail(build, text, rest, end as int);
        whole_slice(text);
        slices_join(text, from, start as int, end as int);
        slices_join(text, from, end as int, byte_len(text));
    }
}

/// Every kept segment stands in what is logged, as it is.
pub proof fn kept_segments_survive(
    build: BuildProfile,
    text: Seq<char>,
    segments: Seq<Segment>,
    from: int,
    i: int,
)
    requires
        0 <= i < segments.len(),
    ensures
        contains_text(
            logged_outside(build, text, segments, from),
            slice(text, segments[i].0 as int, segments[i].1 as int),
        ),
    decreases segments.len(),
{
    let (start, end) = segments[0];
    let gap = logged(build, slice(text, from, start as int));
    let kept = slice(text, start as int, end as int);
    let rest = segments.drop_first();
    let tail = logged_outside(build, text, rest, end as int);
    let all = logged_outside(build, text, segments, from);
    if i == 0 {
        assert(all.subrange(gap.len() as int, (gap.len() + kept.len()) as int) =~= kept);
        assert(occurs_at(all, kept, gap.len() as int));
    } else {
        kept_segments_survive(build, text, rest, end as int, i - 1);
        let found = slice(text, segments[i].0 as int, segments[i].1 as int);
        assert(rest[i - 1] == segments[i]);
        let at = choose|at: int| occurs_at(tail, found, at);
        let shift = gap.len() + kept.len();
        assert(all.subrange(shift + at, shift + at + found.len()) =~= tail.subrange(
            at,
            at + found.len(),
        ));
        assert(occurs_at(all, found, shift + at));
    }
}

/// The number of characters in the given segments together.
pub open spec fn kept_len(text: Seq<char>, segments: Seq<Segment>) -> nat
    decreases segments.len(),
{
    if segments.len() == 0 {
        0
    } else {
        slice(text, segments[0].0 as int, segments[0].1 as int).len() + kept_len(
            text,
            segments.drop_first(),
        )
    }
}

/// Beside the kept segments at most seven characters are logged for each gap,
/// however long the text is: of the sensitive text between two segments only
/// its redaction is left.
pub proof fn gaps_are_short(
    build: BuildProfile,
    text: Seq<char>,
    segments: Seq<Segment>,
    from: int,
)
    requires
        !build.full_logs(),
    ensures
        logged_outside(build, text, segments, from).len() <= kept_len(text, segments) + 7 * (
        segments.len() + 1),
    decreases segments.len(),
{
    if segments.len() == 0 {
        redaction_reveals_little(slice(text, from, byte_len(text)));
    } else {
        redaction_reveals_little(slice(text, from, segments[0].0 as int));
        gaps_are_short(build, text, segments.drop_first(), segments[0].1 as int);
    }
}

/// A text that is of none of the kinds is left as it is.
pub proof fn other_text_is_left(build: BuildProfile, kinds: Seq<SpecPatterns>, text: Seq<char>)
    requires
        forall|i: int| 0 <= i < kinds.len() ==> kept_segments(#[trigger] kinds[i], text) is None,
    ensures
        logged_under(build, kinds, text) == text,
    decreases kinds.len(),
{
    if kinds.len() > 0 {
        let first = kinds.drop_last();
        assert forall|i: int| 0 <= i < first.len() implies kept_segments(
            #[trigger] first[i],
            text,
        ) is None by {
            assert(first[i] == kinds[i]);
        }
        other_text_is_left(build, first, text);
    }
}

/// A line whose body is of none of the kinds is logged from its identifier on
/// as it is.
pub proof fn other_lines_are_left(
    build: BuildProfile,
    kinds: Seq<SpecPatterns>,
    text: Seq<char>,
    ident: Segment,
    whitespace: int,
)
    requires
        ident.0 <= ident.1 <= whitespace,
        cuts(text, ident.0 as int),
        cuts(text, ident.1 as int),
        cuts(text, whitespace),
        forall|i: int|
            0 <= i < kinds.len() ==> kept_segments(
                #[trigger] kinds[i],
                slice(text, ident.1 as int, whitespace),
            ) is None,
    ensures
        logged_parts(build, kinds, text, Some(ident), whitespace) == slice(
            text,
            ident.0 as int,
            byte_len(text),
        ),
{
    other_text_is_left(build, kinds, slice(text, ident.1 as int, whitespace));
    whole_slice(text);
    slices_join(text, ident.0 as int, ident.1 as int, whitespace);
    slices_join(text, ident.0 as int, whitespace, byte_len(text));
}

/// A line that is logged and names its origin keeps that at its beginning, and
/// what follows its body at its end.
pub proof fn lines_keep_origin_and_ending(build: BuildProfile, text: Seq<char>)
    ensures
        logged_line(build, text) matches Some(line) ==> (line_identifier(text) matches Some((
            start,
            end,
        )) ==> {
            &&& slice(text, start as int, end as int).is_prefix_of(line)
            &&& slice(text, body_end(text), byte_len(text)).is_suffix_of(line)
        }),
{
    let line = logged_line(build, text)->0;
    let ident = line_identifier(text)->0;
    let origin = slice(text, ident.0 as int, ident.1 as int);
    let ending = slice(text, body_end(text), byte_len(text));
    if logged_line(build, text) is Some && line_identifier(text) is Some {
        assert(line.subrange(0, origin.len() as int) =~= origin);
        assert(line.subrange(line.len() - ending.len(), line.len() as int) =~= ending);
    }
}

/// Where a further part to keep is not found, as in a line that was cut off,
/// all that follows the parts found so far is taken to be sensitive, and the
/// parts that would come later are not sought.
pub proof fn rest_of_cut_off_line_is_sensitive(
    build: BuildProfile,
    text: Seq<char>,
    rest: Seq<Seq<char>>,
    from: int,
)
    requires
        rest.len() == 0 || !(regex_find(rest[0], slice(text, from, byte_len(text))) matches Some(
            Some(_),
        )),
    ensures
        later_segments(text, rest, from).len() == 0,
        logged_outside(build, text, later_segments(text, rest, from), from) == logged(
            build,
            slice(text, from, byte_len(text)),
        ),
{
}

/// A line is left out of the log if and only if it lists devices; any other
/// line that does not name its origin is marked and redacted as a whole.
pub proof fn lines_are_left_out_or_marked(build: BuildProfile, text: Seq<char>)
    ensures
        logged_line(build, text) is None <==> contains_text(text, "DeviceID"@) && contains_text(
            text,
            "Name"@,
        ),
        !lists_devices(text) && line_identifier(text) is None ==> logged_line(build, text) == Some(
            "BAD CUBEB FORMAT: "@ + logged(build, text),
        ),
{
}

/// A test build applies the rules of every backend, any other build those of
/// its own platform.
pub proof fn rules_in_force(build: BuildProfile)
    ensures
        build.testing ==> cubeb_patterns(build) == windows_patterns() + macos_patterns()
            + linux_patterns(),
        !build.testing ==> cubeb_patterns(build) == match build.platform {
            Platform::Windows => windows_patterns(),
            Platform::MacOs => macos_patterns(),
            Platform::Linux => linux_patterns(),
        },
{
    if !build.testing {
        match build.platform {
            Platform::Windows => {
                assert(cubeb_patterns(build) =~= windows_patterns());
            },
            Platform::MacOs => {
                assert(cubeb_patterns(build) =~= macos_patterns());
            },
            Platform::Linux => {
                assert(cubeb_patterns(build) =~= linux_patterns());
            },
        }
    }
}

/// The rules in force recognise the lines of the WASAPI backend in which a device
/// is named, and know which parts of them to keep.
pub proof fn windows_lines_have_rules(build: BuildProfile)
    requires
        build.platform == Platform::Windows || build.testing,
    ensures
        ({
            let rules = cubeb_patterns(build);
            &&& rules[0] == ("Found matching device for "@, seq![": "@])
            &&& rules[1] == ("collection: Audio device default changed, id = "@, seq![r"\.$"@])
            &&& rules[2] == (
                "endpoint: Audio device default changed flow=.* role=.* new_device_id="@,
                seq![r"\.$"@],
            )
            &&& rules[3] == (
                "collection: Audio device state changed, id = "@,
                seq![", state =.*"@],
            )
            &&& rules.len() == if build.testing {
                9int
            } else {
                4int
            }
        }),
{
}

/// The rules in force recognise the lines of the CoreAudio backend in which a
/// device is named, those about inputs and those about outputs, and know which
/// parts of them to keep.
pub proof fn macos_lines_have_rules(build: BuildProfile)
    requires
        build.platform == Platform::MacOs || build.testing,
    ensures
        ({
            let rules = cubeb_patterns(build);
            let at = if build.testing {
                4int
            } else {
                0int
            };
            &&& rules[at] == (r"Device \d+ \("@, seq![r"\) has \d+.*channels"@])
            &&& rules[at + 1] == (
                r"Cannot get the channel count for device \d+ \("@,
                seq![r"\)\. Ignored\."@],
            )
            &&& rules[at + 2].0 == "(Input|Output) uid=\""@
            &&& rules[at + 2].1.len() == 4
            &&& rules[at + 2].1[0] == "\", model_uid=\""@
            &&& rules[at + 2].1[1] == "\", transport_type=.*, source=.*, source_name=\""@
            &&& rules[at + 2].1[2] == "\", name=\""@
            &&& rules[at + 2].1[3] == "\", manufacturer=\".*\""@
            &&& rules.len() == if build.testing {
                9int
            } else {
                3int
            }
        }),
{
}

/// The rules in force recognise the lines of the PulseAudio backend in which a
/// device is named, and know which parts of them to keep.
pub proof fn linux_lines_have_rules(build: BuildProfile)
    requires
        build.platform == Platform::Linux || build.testing,
    ensures
        ({
            let rules = cubeb_patterns(build);
            let at = if build.testing {
                7int
            } else {
                0int
            };
            &&& rules[at].0 == "PulseAudio default sink info: name="@
            &&& rules[at].1.len() == 2
            &&& rules[at].1[0] == ", description="@
            &&& rules[at].1[1] == r", driver=.*, latency=\d+"@
            &&& rules[at + 1] == (
                "PulseAudio server info: server_name=.*, default_sink_name="@,
                seq![", default_source_name="@],
            )
            &&& rules.len() == if build.testing {
                9int
            } else {
                2int
            }
        }),
{
}

/// A text in which the first regular expression of a rule in force matches is
/// recognised by that rule, and the match is the first part that is kept.
/// On macOS this holds of every text in which `(Input|Output) uid="` matches.
pub proof fn lines_of_a_rule_are_recognised(
    build: BuildProfile,
    i: int,
    text: Seq<char>,
    found: Segment,
)
    requires
        0 <= i < cubeb_patterns(build).len(),
        regex_find(cubeb_patterns(build)[i].0, text) == Some(Some(found)),
    ensures
        kept_segments(cubeb_patterns(build)[i], text) matches Some(segments) && segments.len() > 0
            && segments[0] == found,
        logged_if_matching(build, cubeb_patterns(build)[i], text).len() >= slice(
            text,
            found.0 as int,
            found.1 as int,
        ).len(),
{
}

/// Lines about input and output devices of the CoreAudio backend are recognised
/// by the rules in force.
pub proof fn device_pair_lines_are_recognised(build: BuildProfile, text: Seq<char>, found: Segment)
    requires
        build.platform == Platform::MacOs || build.testing,
        regex_find("(Input|Output) uid=\""@, text) == Some(Some(found)),
    ensures
        exists|i: int|
            0 <= i < cubeb_patterns(build).len() && (kept_segments(
                #[trigger] cubeb_patterns(build)[i],
                text,
            ) matches Some(segments) && segments.len() > 0 && segments[0] == found),
{
    macos_lines_have_rules(build);
    let at = if build.testing {
        6int
    } else {
        2int
    };
    lines_of_a_rule_are_recognised(build, at, text, found);
    assert(kept_segments(cubeb_patterns(build)[at], text) is Some);
}

/// A text changes only where the first regular expression matches. Then all
/// before the match is logged like sensitive text, the match as it is, and what
/// follows by the further parts to keep.
pub proof fn a_match_divides_the_text(build: BuildProfile, patterns: SpecPatterns, text: Seq<char>)
    ensures
        match regex_find(patterns.0, text) {
            Some(None) => logged_if_matching(build, patterns, text) == text,
            Some(Some((start, end))) => logged_if_matching(build, patterns, text) == logged(
                build,
                slice(text, 0, start as int),
            ) + slice(text, start as int, end as int) + logged_outside(
                build,
                text,
                later_segments(text, patterns.1, end as int),
                end as int,
            ),
            None => logged_if_matching(build, patterns, text) == logged(
                build,
                slice(text, 0, byte_len(text)),
            ),
        },
{
    if let Some(Some((start, end))) = regex_find(patterns.0, text) {
        let segments = kept_segments(patterns, text)->0;
        assert(segments[0] == (start, end));
        assert(segments.drop_first() =~= later_segments(text, patterns.1, end as int));
    }
}

/// A further part is sought in all that follows the parts before it. Where it is
/// found, all before it is logged like sensitive text and the part as it is, and
/// so on after it with the parts that remain. Where it is not found, or no part
/// remains, all that follows is logged like sensitive text.
pub proof fn further_parts_divide_the_rest(
    build: BuildProfile,
    text: Seq<char>,
    rest: Seq<Seq<char>>,
    from: int,
)
    requires
        0 <= from <= byte_len(text) <= usize::MAX,
    ensures
        ({
            let whole = |rest: Seq<Seq<char>>, from: int|
                logged_outside(build, text, later_segments(text, rest, from), from);
            let tail = slice(text, from, byte_len(text));
            if rest.len() == 0 {
                whole(rest, from) == logged(build, tail)
            } else {
                match regex_find(rest[0], tail) {
                    Some(Some((start, end))) => from + end <= usize::MAX && start <= end ==> whole(
                        rest,
                        from,
                    ) == logged(build, slice(text, from, from + start)) + slice(
                        text,
                        from + start,
                        from + end,
                    ) + whole(rest.skip(1), from + end),
                    _ => whole(rest, from) == logged(build, tail),
                }
            }
        }),
{
    if rest.len() > 0 {
        assert(rest.skip(1) =~= rest.drop_first());
        if let Some(Some((start, end))) = regex_find(rest[0], slice(text, from, byte_len(text))) {
            let segments = later_segments(text, rest, from);
            assert(segments[0] == ((from + start) as usize, (from + end) as usize));
            assert(segments.drop_first() =~= later_segments(
                text,
                rest.drop_first(),
                from + end,
            ));
        }
    }
}

/// A text of which one segment is kept is logged as three parts: what stands
/// before it like sensitive text, the segment as it is, and what follows like
/// sensitive text.
pub proof fn one_kept_segment(build: BuildProfile, text: Seq<char>, segment: Segment)
    ensures
        logged_outside(build, text, seq![segment], 0) == logged(
            build,
            slice(text, 0, segment.0 as int),
        ) + slice(text, segment.0 as int, segment.1 as int) + logged(
            build,
            slice(text, segment.1 as int, byte_len(text)),
        ),
        logged_outside(build, text, Seq::empty(), 0) == logged(
            build,
            slice(text, 0, byte_len(text)),
        ),
{
    assert(seq![segment].drop_first() =~= Seq::empty());
    let rest = Seq::<Segment>::empty();
    assert(logged_outside(build, text, rest, segment.1 as int) == logged(
        build,
        slice(text, segment.1 as int, byte_len(text)),
    ));
}

/// What is logged up to a kept segment depends on nothing that follows it: it is
/// what is logged of the text that ends there. After it come the segment, as it
/// is, and the rest, like sensitive text.
pub proof fn the_last_segment_divides_the_text(
    build: BuildProfile,
    text: Seq<char>,
    segments: Seq<Segment>,
    last: Segment,
    from: int,
)
    requires
        segments_fit(text, segments.push(last)),
        cuts(text, from),
        segments.len() > 0 ==> from <= segments[0].0,
        from <= last.0,
    ensures
        logged_outside(build, text, segments.push(last), from) == logged_outside(
            build,
            slice(text, 0, last.0 as int),
            segments,
            from,
        ) + slice(text, last.0 as int, last.1 as int) + logged(
            build,
            slice(text, last.1 as int, byte_len(text)),
        ),
    decreases segments.len(),
{
    let all = segments.push(last);
    let cut = last.0 as int;
    let head = slice(text, 0, cut);
    assert(all[all.len() - 1] == last);
    assert(cuts(text, cut) && cuts(text, last.1 as int));
    if segments.len() == 0 {
        slice_of_beginning(text, cut, from, cut);
        assert(all.drop_first() =~= Seq::empty());
        assert(logged_outside(build, text, all.drop_first(), last.1 as int) == logged(
            build,
            slice(text, last.1 as int, byte_len(text)),
        ));
    } else {
        let first = segments[0];
        let rest = segments.drop_first();
        assert(all[0] == first);
        assert(all.drop_first() =~= rest.push(last));
        assert forall|i: int| 0 <= i < rest.push(last).len() implies #[trigger] rest.push(last)[i]
            == all[i + 1] by {}
        assert(first.1 <= all[all.len() - 1].0);
        if rest.len() > 0 {
            assert(rest[0] == all[1]);
        }
        the_last_segment_divides_the_text(build, text, rest, last, first.1 as int);
        slice_of_beginning(text, cut, from, first.0 as int);
        slice_of_beginning(text, cut, first.0 as int, first.1 as int);
    }
}

/// Applying kinds of line one after the other: none leaves a text as it is, one
/// does what it does alone, and of two lists the second is applied to what the
/// first left.
pub proof fn kinds_are_applied_in_turn(
    build: BuildProfile,
    first: Seq<SpecPatterns>,
    kind: SpecPatterns,
    second: Seq<SpecPatterns>,
    text: Seq<char>,
)
    ensures
        logged_under(build, Seq::empty(), text) == text,
        logged_under(build, seq![kind], text) == logged_if_matching(build, kind, text),
        logged_under(build, first + second, text) == logged_under(
            build,
            second,
            logged_under(build, first, text),
        ),
    decreases second.len(),
{
    assert(seq![kind].drop_last() =~= Seq::empty());
    assert(logged_under(build, Seq::empty(), text) == text);
    if second.len() == 0 {
        assert(first + second =~= first);
    } else {
        assert((first + second).drop_last() =~= first + second.drop_last());
        kinds_are_applied_in_turn(build, first, kind, second.drop_last(), text);
    }
}

/// What is logged of a whole line, by what its regular expressions find. The
/// line's origin and the whitespace at its end stay as they are, wherever they
/// meet, and the rules in force apply to what stands between. What stands before
/// the origin is not logged.
pub proof fn lines_are_divided(
    build: BuildProfile,
    text: Seq<char>,
    origin: Segment,
    ending: Segment,
)
    requires
        !(contains_text(text, "DeviceID"@) && contains_text(text, "Name"@)),
        regex_find(r"[^\s]+:\d+:\s*"@, text) == Some(Some(origin)),
        regex_find(r"\s*$"@, text) == Some(Some(ending)),
    ensures
        ending.0 >= origin.1 ==> logged_line(build, text) == Some(
            slice(text, origin.0 as int, origin.1 as int) + logged_under(
                build,
                cubeb_patterns(build),
                slice(text, origin.1 as int, ending.0 as int),
            ) + slice(text, ending.0 as int, byte_len(text)),
        ),
        ending.0 <= origin.1 ==> logged_line(build, text) == Some(
            slice(text, origin.0 as int, origin.1 as int) + logged_under(
                build,
                cubeb_patterns(build),
                slice(text, origin.1 as int, origin.1 as int),
            ) + slice(text, origin.1 as int, byte_len(text)),
        ),
{
}

/// A line in which no origin is found is marked and logged like sensitive text,
/// whatever stands at its end.
pub proof fn lines_without_origin_are_marked(build: BuildProfile, text: Seq<char>)
    requires
        !(contains_text(text, "DeviceID"@) && contains_text(text, "Name"@)),
        !(regex_find(r"[^\s]+:\d+:\s*"@, text) matches Some(Some(_))),
    ensures
        logged_line(build, text) == Some("BAD CUBEB FORMAT: "@ + logged(build, text)),
{
}

/// A kind of line is its regular expressions, the first and the further ones in
/// their order, and a list of kinds is the list of theirs.
pub proof fn kinds_are_their_expressions(specs: Seq<RedactionSpec>, i: int)
    requires
        0 <= i < specs.len(),
    ensures
        patterns_of(specs).len() == specs.len(),
        patterns_of(specs)[i] == specs[i]@,
        specs[i]@.0 == specs[i].first_to_keep@,
        specs[i]@.1.len() == specs[i].rest_to_keep@.len(),
        forall|j: int|
            0 <= j < specs[i].rest_to_keep@.len() ==> #[trigger] specs[i]@.1[j]
                == specs[i].rest_to_keep@[j]@,
{
}

/// A line's origin is the leftmost `file:line:` with the whitespace after it, and
/// its ending whitespace all whitespace before its end. Where no ending is found,
/// the body goes on to the end of the line, but never ends within the origin.
pub proof fn parts_of_a_line_are_found(text: Seq<char>)
    ensures
        regex_find(r"[^\s]+:\d+:\s*"@, text) matches Some(Some(origin)) ==> line_identifier(text)
            == Some(origin),
        !(regex_find(r"[^\s]+:\d+:\s*"@, text) matches Some(Some(_))) ==> line_identifier(
            text,
        ) is None,
        regex_find(r"\s*$"@, text) matches Some(Some(ending)) ==> ending_whitespace(text)
            == ending.0,
        !(regex_find(r"\s*$"@, text) matches Some(Some(_))) ==> ending_whitespace(text) == byte_len(
            text,
        ),
        body_end(text) >= ending_whitespace(text),
        line_identifier(text) matches Some(origin) ==> body_end(text) >= origin.1 && (body_end(text)
            == origin.1 || body_end(text) == ending_whitespace(text)),
        line_identifier(text) is None ==> body_end(text) == ending_whitespace(text),
{
}

} // verus!
