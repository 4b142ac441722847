//! Events for scripting languages: a list of named values.
use vstd::prelude::*;
use vstd::string::*;

use crate::event::{CaptureKind, Event, Permission, PermissionGranted};
use crate::text::copy_texts;

verus! {

/// A value that a scripting language can hold.
#[derive(Debug, Clone, PartialEq, Eq)]
pub enum FieldValue {
    Text(String),
    Number(u32),
    Flag(bool),
    List(Vec<String>),
}

/// A value that a scripting language can hold.
pub enum FieldValueView {
    Text(Seq<char>),
    Number(u32),
    Flag(bool),
    List(Seq<Seq<char>>),
}

/// A named value.
#[derive(Debug, Clone, PartialEq, Eq)]
pub struct Field {
    pub key: &'static str,
    pub value: FieldValue,
}

/// A named value.
pub struct FieldView {
    pub key: Seq<char>,
    pub value: FieldValueView,
}

impl View for Field {
    type V = FieldView;

    open spec fn view(&self) -> FieldView {
        FieldView {
            key: self.key@,
            value: match self.value {
                FieldValue::Text(s) => FieldValueView::Text(s@),
                FieldValue::Number(n) => FieldValueView::Number(n),
                FieldValue::Flag(b) => FieldValueView::Flag(b),
                FieldValue::List(l) => FieldValueView::List(crate::text::texts(l@)),
            },
        }
    }
}

/// What each of a list of named values says.
pub open spec fn field_views(fields: Seq<Field>) -> Seq<FieldView> {
    fields.map_values(|f: Field| f@)
}

/// A named text.
pub open spec fn text_field(key: Seq<char>, text: Seq<char>) -> FieldView {
    FieldView { key, value: FieldValueView::Text(text) }
}

/// The name of the kind of an event.
pub open spec fn kind_name(event: crate::event::EventView) -> Seq<char> {
    match event {
        crate::event::EventView::PermissionStatus { permission, status } => "PermissionStatus"@,
        crate::event::EventView::PermissionsGranted => "PermissionsGranted"@,
        crate::event::EventView::MeetingDetected { app, pid } => "MeetingDetected"@,
        crate::event::EventView::MeetingUpdated { app, title } => "MeetingUpdated"@,
        crate::event::EventView::MeetingEnded { app } => "MeetingEnded"@,
        crate::event::EventView::RecordingStarted { app } => "RecordingStarted"@,
        crate::event::EventView::RecordingEnded { app } => "RecordingEnded"@,
        crate::event::EventView::RecordingReady { mixed_path, others_path, self_path, app } =>
            "RecordingReady"@,
        crate::event::EventView::CaptureStatus { kind, capturing } => "CaptureStatus"@,
        crate::event::EventView::Error { message } => "Error"@,
        crate::event::EventView::SpeakerChanged { speakers, app } => "SpeakerChanged"@,
    }
}

/// The name of a permission.
pub open spec fn permission_name(permission: Permission) -> Seq<char> {
    match permission {
        Permission::Microphone => "Microphone"@,
        Permission::ScreenCapture => "ScreenCapture"@,
        Permission::Accessibility => "Accessibility"@,
    }
}

/// The name of a grant status.
pub open spec fn status_name(status: PermissionGranted) -> Seq<char> {
    match status {
        PermissionGranted::Granted => "Granted"@,
        PermissionGranted::NotRequested => "NotRequested"@,
        PermissionGranted::Denied => "Denied"@,
    }
}

/// The name of a media stream.
pub open spec fn stream_name(kind: CaptureKind) -> Seq<char> {
    match kind {
        CaptureKind::Audio => "Audio"@,
        CaptureKind::Video => "Video"@,
    }
}

/// How a language writes the names of the fields.
#[derive(Debug, Clone, Copy, PartialEq, Eq, Structural)]
pub enum Style {
    /// As in JavaScript: `mixedPath`.
    Camel,
    /// As in Python: `mixed_path`.
    Snake,
}

/// The fields of an event besides its kind. JavaScript has the path of the mixed
/// recording as `path` too.
pub open spec fn detail_fields(event: crate::event::EventView, style: Style) -> Seq<FieldView> {
    match event {
        crate::event::EventView::PermissionStatus { permission, status } => seq![
            text_field("permission"@, permission_name(permission)),
            text_field("status"@, status_name(status)),
        ],
        crate::event::EventView::PermissionsGranted => Seq::empty(),
        crate::event::EventView::MeetingDetected { app, pid } => seq![
            text_field("app"@, app),
            FieldView { key: "pid"@, value: FieldValueView::Number(pid) },
        ],
        crate::event::EventView::MeetingUpdated { app, title } => seq![
            text_field("app"@, app),
            text_field("title"@, title),
        ],
        crate::event::EventView::MeetingEnded { app } => seq![text_field("app"@, app)],
        crate::event::EventView::RecordingStarted { app } => seq![text_field("app"@, app)],
        crate::event::EventView::RecordingEnded { app } => seq![text_field("app"@, app)],
        crate::event::EventView::RecordingReady { mixed_path, others_path, self_path, app } =>
            match style {
            Style::Camel => seq![
                text_field("app"@, app),
                text_field("path"@, mixed_path),
                text_field("mixedPath"@, mixed_path),
                text_field("othersPath"@, others_path),
                text_field("selfPath"@, self_path),
            ],
            Style::Snake => seq![
                text_field("app"@, app),
                text_field("mixed_path"@, mixed_path),
                text_field("others_path"@, others_path),
                text_field("self_path"@, self_path),
            ],
        },
        crate::event::EventView::CaptureStatus { kind, capturing } => seq![
            text_field(
                match style {
                    Style::Camel => "captureKind"@,
                    Style::Snake => "capture_kind"@,
                },
                stream_name(kind),
            ),
            FieldView { key: "capturing"@, value: FieldValueView::Flag(capturing) },
        ],
        crate::event::EventView::Error { message } => seq![text_field("message"@, message)],
        crate::event::EventView::SpeakerChanged { speakers, app } => seq![
            text_field("app"@, app),
            FieldView { key: "speakers"@, value: FieldValueView::List(speakers) },
        ],
    }
}

/// The fields of an event, its kind first.
pub open spec fn fields_of(event: crate::event::EventView, style: Style) -> Seq<FieldView> {
    seq![text_field("kind"@, kind_name(event))] + detail_fields(event, style)
}

/// The name of the kind of an event.
pub fn kind(event: &Event) -> (name: &'static str)
    ensures
        name@ == kind_name(event@),
{
    match event {
        Event::PermissionStatus { permission: _, status: _ } => "PermissionStatus",
        Event::PermissionsGranted => "PermissionsGranted",
        Event::MeetingDetected { app: _, pid: _ } => "MeetingDetected",
        Event::MeetingUpdated { app: _, title: _ } => "MeetingUpdated",
        Event::MeetingEnded { app: _ } => "MeetingEnded",
        Event::RecordingStarted { app: _ } => "RecordingStarted",
        Event::RecordingEnded { app: _ } => "RecordingEnded",
        Event::RecordingReady { mixed_path: _, others_path: _, self_path: _, app: _ } =>
            "RecordingReady",
        Event::CaptureStatus { kind: _, capturing: _ } => "CaptureStatus",
        Event::Error { message: _ } => "Error",
        Event::SpeakerChanged { speakers: _, app: _ } => "SpeakerChanged",
    }
}

/// A named text.
fn text(key: &'static str, value: &str) -> (field: Field)
    ensures
        field@ == text_field(key@, value@),
{
    Field { key, value: FieldValue::Text(value.to_owned()) }
}

/// The fields of an event, its kind first.
fn event_fields(event: &Event, style: Style) -> (fields: Vec<Field>)
    ensures
        field_views(fields@) == fields_of(event@, style),
{
    let mut fields: Vec<Field> = Vec::new();
    fields.push(text("kind", kind(event)));
    match event {
        Event::PermissionStatus { permission, status } => {
            let permission: &'static str = match permission {
                Permission::Microphone => "Microphone",
                Permission::ScreenCapture => "ScreenCapture",
                Permission::Accessibility => "Accessibility",
            };
            let status: &'static str = match status {
                PermissionGranted::Granted => "Granted",
                PermissionGranted::NotRequested => "NotRequested",
                PermissionGranted::Denied => "Denied",
            };
            fields.push(text("permission", permission));
            fields.push(text("status", status));
        },
        Event::PermissionsGranted => {},
        Event::MeetingDetected { app, pid } => {
            fields.push(text("app", app.as_str()));
            fields.push(Field { key: "pid", value: FieldValue::Number(*pid) });
        },
        Event::MeetingUpdated { app, title } => {
            fields.push(text("app", app.as_str()));
            fields.push(text("title", title.as_str()));
        },
        Event::MeetingEnded { app } => {
            fields.push(text("app", app.as_str()));
        },
        Event::RecordingStarted { app } => {
            fields.push(text("app", app.as_str()));
        },
        Event::RecordingEnded { app } => {
            fields.push(text("app", app.as_str()));
        },
        Event::RecordingReady { mixed_path, others_path, self_path, app } => {
            fields.push(text("app", app.as_str()));
            if style == Style::Camel {
                fields.push(text("path", mixed_path.as_str()));
                fields.push(text("mixedPath", mixed_path.as_str()));
                fields.push(text("othersPath", others_path.as_str()));
                fields.push(text("selfPath", self_path.as_str()));
            } else {
                fields.push(text("mixed_path", mixed_path.as_str()));
                fields.push(text("others_path", others_path.as_str()));
                fields.push(text("self_path", self_path.as_str()));
            }
        },
        Event::CaptureStatus { kind, capturing } => {
            let key: &'static str = if style == Style::Camel {
                "captureKind"
            } else {
                "capture_kind"
            };
            let stream: &'static str = match kind {
                CaptureKind::Audio => "Audio",
                CaptureKind::Video => "Video",
            };
            fields.push(text(key, stream));
            fields.push(Field { key: "capturing", value: FieldValue::Flag(*capturing) });
        },
        Event::Error { message } => {
            fields.push(text("message", message.as_str()));
        },
        Event::SpeakerChanged { speakers, app } => {
            fields.push(text("app", app.as_str()));
            fields.push(Field { key: "speakers", value: FieldValue::List(copy_texts(speakers)) });
        },
    }
    proof {
        assert(field_views(fields@) =~= fields_of(event@, style));
    }
    fields
}

/// The fields of an event as JavaScript names them.
pub fn event_to_js(event: &Event) -> (fields: Vec<Field>)
    ensures
        field_views(fields@) == fields_of(event@, Style::Camel),
{
    event_fields(event, Style::Camel)
}

/// The fields of an event as Python names them.
pub fn event_to_py(event: &Event) -> (fields: Vec<Field>)
    ensures
        field_views(fields@) == fields_of(event@, Style::Snake),
{
    event_fields(event, Style::Snake)
}

/// The first field of an event is its kind, and no two fields have the same name.
pub proof fn law_fields_have_names(event: crate::event::EventView, style: Style)
    ensures
        ({
            let fields = fields_of(event, style);
            &&& fields[0] == text_field("kind"@, kind_name(event))
            &&& forall|i: int, j: int|
                0 <= i < j < fields.len() ==> #[trigger] fields[i].key != #[trigger] fields[j].key
        }),
{
    reveal_strlit("kind");
    reveal_strlit("permission");
    reveal_strlit("status");
    reveal_strlit("app");
    reveal_strlit("pid");
    reveal_strlit("title");
    reveal_strlit("path");
    reveal_strlit("mixedPath");
    reveal_strlit("othersPath");
    reveal_strlit("selfPath");
    reveal_strlit("mixed_path");
    reveal_strlit("others_path");
    reveal_strlit("self_path");
    reveal_strlit("captureKind");
    reveal_strlit("capture_kind");
    reveal_strlit("capturing");
    reveal_strlit("message");
    reveal_strlit("speakers");
    assert("kind"@[0] == 'k' && "path"@[0] == 'p');
    assert("app"@[1] == 'p' && "pid"@[1] == 'i');
    let fields = fields_of(event, style);
    assert forall|i: int, j: int| 0 <= i < j < fields.len() implies #[trigger] fields[i].key
        != #[trigger] fields[j].key by {
        assert(fields[0].key == "kind"@);
        if event is RecordingReady {
            assert(fields[1].key == "app"@);
            assert(j <= 5);
            if j > 1 {
                assert(fields[j].key.len() > 3);
            }
            if style == Style::Camel {
                assert(fields[2].key == "path"@);
                assert(fields[3].key == "mixedPath"@);
                assert(fields[4].key == "othersPath"@);
                assert(fields[5].key == "selfPath"@);
            } else {
                assert(fields[2].key == "mixed_path"@);
                assert(fields[3].key == "others_path"@);
                assert(fields[4].key == "self_path"@);
            }
            assert(i == 0 || i == 1 || i == 2 || i == 3 || i == 4);
            assert(j == 1 || j == 2 || j == 3 || j == 4 || j == 5);
        } else {
            assert(j <= 2);
            assert(i == 0 || i == 1);
            assert(j == 1 || j == 2);
            if event is PermissionStatus {
                assert(fields[1].key == "permission"@);
                assert(fields[2].key == "status"@);
                assert("permission"@.len() == 10 && "status"@.len() == 6 && "kind"@.len() == 4);
            }
            if event is CaptureStatus {
                assert(fields[1].key == "captureKind"@ || fields[1].key == "capture_kind"@);
                assert(fields[2].key == "capturing"@);
                assert("captureKind"@.len() == 11 && "capture_kind"@.len() == 12
                    && "capturing"@.len() == 9 && "kind"@.len() == 4);
            }
        }
    }
}

/// JavaScript and Python get the same values in the same order, and under the same
/// names but for the style in which those are written; only of a recording that is
/// ready JavaScript gets the path of the mixed recording once more.
pub proof fn law_languages_get_the_same(event: crate::event::EventView)
    ensures
        ({
            let js = fields_of(event, Style::Camel);
            let py = fields_of(event, Style::Snake);
            &&& !(event is RecordingReady) ==> {
                &&& js.len() == py.len()
                &&& forall|i: int|
                    0 <= i < py.len() ==> js[i].value == (#[trigger] py[i]).value
            }
            &&& !(event is RecordingReady) && !(event is CaptureStatus) ==> js == py
            &&& event is CaptureStatus ==> js[2].key == py[2].key && js[1].key == "captureKind"@
                && py[1].key == "capture_kind"@
            &&& event matches crate::event::EventView::RecordingReady {
                mixed_path,
                others_path,
                self_path,
                app,
            } ==> {
                &&& js.len() == py.len() + 1
                &&& js.take(2) == py.take(2)
                &&& js[2] == text_field("path"@, mixed_path)
                &&& forall|i: int|
                    2 <= i < py.len() ==> js[i + 1].value == (#[trigger] py[i]).value
            }
        }),
{
    let js = fields_of(event, Style::Camel);
    let py = fields_of(event, Style::Snake);
    if event is RecordingReady {
        assert(js.take(2) =~= py.take(2));
    }
}

/// What is said of a field, and of an event, is what it holds.
pub proof fn law_fields_say_what_they_hold(
    key: &'static str,
    text: String,
    number: u32,
    flag: bool,
    list: Vec<String>,
)
    ensures
        (Field { key, value: FieldValue::Text(text) })@ == (FieldView {
            key: key@,
            value: FieldValueView::Text(text@),
        }),
        (Field { key, value: FieldValue::Number(number) })@ == (FieldView {
            key: key@,
            value: FieldValueView::Number(number),
        }),
        (Field { key, value: FieldValue::Flag(flag) })@ == (FieldView {
            key: key@,
            value: FieldValueView::Flag(flag),
        }),
        (Field { key, value: FieldValue::List(list) })@ == (FieldView {
            key: key@,
            value: FieldValueView::List(list@.map_values(|s: String| s@)),
        }),
{
}

/// Each kind of event goes by its own name.
pub proof fn law_kinds_have_their_names(event: crate::event::EventView, style: Style)
    ensures
        ({
            let kind = fields_of(event, style)[0];
            let is = |name: Seq<char>|
                kind == FieldView { key: "kind"@, value: FieldValueView::Text(name) };
            &&& event is PermissionStatus ==> is("PermissionStatus"@)
            &&& event is PermissionsGranted ==> is("PermissionsGranted"@)
            &&& event is MeetingDetected ==> is("MeetingDetected"@)
            &&& event is MeetingUpdated ==> is("MeetingUpdated"@)
            &&& event is MeetingEnded ==> is("MeetingEnded"@)
            &&& event is RecordingStarted ==> is("RecordingStarted"@)
            &&& event is RecordingEnded ==> is("RecordingEnded"@)
            &&& event is RecordingReady ==> is("RecordingReady"@)
            &&& event is CaptureStatus ==> is("CaptureStatus"@)
            &&& event is Error ==> is("Error"@)
            &&& event is SpeakerChanged ==> is("SpeakerChanged"@)
        }),
{
}

/// The value of the field with this name, where there is one.
pub open spec fn value_named(fields: Seq<FieldView>, key: Seq<char>) -> Option<FieldValueView> {
    if exists|i: int| 0 <= i < fields.len() && (#[trigger] fields[i]).key == key {
        let i = choose|i: int| 0 <= i < fields.len() && (#[trigger] fields[i]).key == key;
        Some(fields[i].value)
    } else {
        None
    }
}

/// A field is found by its name, since no two have the same.
proof fn lemma_found_by_name(event: crate::event::EventView, style: Style, i: int)
    requires
        0 <= i < fields_of(event, style).len(),
    ensures
        value_named(fields_of(event, style), fields_of(event, style)[i].key) == Some(
            fields_of(event, style)[i].value,
        ),
{
    let fields = fields_of(event, style);
    law_fields_have_names(event, style);
    let key = fields[i].key;
    let j = choose|j: int| 0 <= j < fields.len() && (#[trigger] fields[j]).key == key;
    assert(fields[j].key == key);
    if i < j {
        assert(fields[i].key != fields[j].key);
    }
    if j < i {
        assert(fields[j].key != fields[i].key);
    }
}

/// An event reads back from its fields: whoever asks for a field by its name gets what the
/// event holds under that name, of every kind of event, in either language.
pub proof fn law_event_reads_back(event: crate::event::EventView, style: Style)
    ensures
        ({
            let fields = fields_of(event, style);
            let text = |key: Seq<char>, text: Seq<char>|
                value_named(fields, key) == Some(FieldValueView::Text(text));
            let camel = style == Style::Camel;
            match event {
                crate::event::EventView::PermissionStatus { permission, status } => {
                    &&& permission == Permission::Microphone ==> text(
                        "permission"@,
                        "Microphone"@,
                    )
                    &&& permission == Permission::ScreenCapture ==> text(
                        "permission"@,
                        "ScreenCapture"@,
                    )
                    &&& permission == Permission::Accessibility ==> text(
                        "permission"@,
                        "Accessibility"@,
                    )
                    &&& status == PermissionGranted::Granted ==> text("status"@, "Granted"@)
                    &&& status == PermissionGranted::NotRequested ==> text(
                        "status"@,
                        "NotRequested"@,
                    )
                    &&& status == PermissionGranted::Denied ==> text("status"@, "Denied"@)
                    &&& fields.len() == 3
                },
                crate::event::EventView::PermissionsGranted => fields.len() == 1,
                crate::event::EventView::MeetingDetected { app, pid } => {
                    &&& text("app"@, app)
                    &&& value_named(fields, "pid"@) == Some(FieldValueView::Number(pid))
                    &&& fields.len() == 3
                },
                crate::event::EventView::MeetingUpdated { app, title } => {
                    &&& text("app"@, app)
                    &&& text("title"@, title)
                    &&& fields.len() == 3
                },
                crate::event::EventView::MeetingEnded { app } => text("app"@, app) && fields.len()
                    == 2,
                crate::event::EventView::RecordingStarted { app } => text("app"@, app)
                    && fields.len() == 2,
                crate::event::EventView::RecordingEnded { app } => text("app"@, app)
                    && fields.len() == 2,
                crate::event::EventView::RecordingReady {
                    mixed_path,
                    others_path,
                    self_path,
                    app,
                } => {
                    &&& text("app"@, app)
                    &&& camel ==> text("path"@, mixed_path)
                    &&& camel ==> text("mixedPath"@, mixed_path)
                    &&& camel ==> text("othersPath"@, others_path)
                    &&& camel ==> text("selfPath"@, self_path)
                    &&& camel ==> fields.len() == 6
                    &&& !camel ==> text("mixed_path"@, mixed_path)
                    &&& !camel ==> text("others_path"@, others_path)
                    &&& !camel ==> text("self_path"@, self_path)
                    &&& !camel ==> fields.len() == 5
                },
                crate::event::EventView::CaptureStatus { kind, capturing } => {
                    let key = if camel {
                        "captureKind"@
                    } else {
                        "capture_kind"@
                    };
                    &&& kind == CaptureKind::Audio ==> text(key, "Audio"@)
                    &&& kind == CaptureKind::Video ==> text(key, "Video"@)
                    &&& value_named(fields, "capturing"@) == Some(FieldValueView::Flag(capturing))
                    &&& fields.len() == 3
                },
                crate::event::EventView::Error { message } => text("message"@, message)
                    && fields.len() == 2,
                crate::event::EventView::SpeakerChanged { speakers, app } => {
                    &&& text("app"@, app)
                    &&& value_named(fields, "speakers"@) == Some(FieldValueView::List(speakers))
                    &&& fields.len() == 3
                },
            }
        }),
{
    let fields = fields_of(event, style);
    if fields.len() > 1 {
        lemma_found_by_name(event, style, 1);
    }
    if fields.len() > 2 {
        lemma_found_by_name(event, style, 2);
    }
    if fields.len() > 3 {
        lemma_found_by_name(event, style, 3);
    }
    if fields.len() > 4 {
        lemma_found_by_name(event, style, 4);
    }
    if fields.len() > 5 {
        lemma_found_by_name(event, style, 5);
    }
}

} // verus!
