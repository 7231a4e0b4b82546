use vstd::prelude::*;

use crate::error::BackendError;

verus! {

/// Application User Model ID for wsl-relay.
/// Used to identify the app in Windows toast notifications and Start menu.
pub const WSLRELAY_AUMID: &'static str = "WslRelay.HostAgent";

/// The icon a notification asks for.
#[derive(Debug, Clone, Copy, PartialEq, Eq, Structural)]
pub enum NotifyIcon {
    Info,
    Success,
    Warning,
    Error,
}

/// The icon named `name` in requests (lower-case variant names), if any.
pub open spec fn icon_named(name: Seq<char>) -> Option<NotifyIcon> {
    if name == "info"@ {
        Some(NotifyIcon::Info)
    } else if name == "success"@ {
        Some(NotifyIcon::Success)
    } else if name == "warning"@ {
        Some(NotifyIcon::Warning)
    } else if name == "error"@ {
        Some(NotifyIcon::Error)
    } else {
        None
    }
}

impl NotifyIcon {
    /// The name by which requests refer to this icon.
    pub open spec fn name_spec(self) -> Seq<char> {
        match self {
            NotifyIcon::Info => "info"@,
            NotifyIcon::Success => "success"@,
            NotifyIcon::Warning => "warning"@,
            NotifyIcon::Error => "error"@,
        }
    }

    /// The icon named `name`: `info`, `success`, `warning` or `error`.
    pub fn from_name(name: &str) -> (r: Option<NotifyIcon>)
        ensures
            r == icon_named(name@),
    {
        let s = String::from_str(name);
        if s == String::from_str("info") {
            Some(NotifyIcon::Info)
        } else if s == String::from_str("success") {
            Some(NotifyIcon::Success)
        } else if s == String::from_str("warning") {
            Some(NotifyIcon::Warning)
        } else if s == String::from_str("error") {
            Some(NotifyIcon::Error)
        } else {
            None
        }
    }

    /// The name by which requests refer to this icon.
    pub fn name(&self) -> (r: &'static str)
        ensures
            r@ == self.name_spec(),
    {
        match self {
            NotifyIcon::Info => "info",
            NotifyIcon::Success => "success",
            NotifyIcon::Warning => "warning",
            NotifyIcon::Error => "error",
        }
    }
}

/// A request to show a notification.
pub struct NotifyRequest {
    pub title: String,
    pub body: String,
    pub icon: NotifyIcon,
}

/// The icon of a request that names none.
pub fn default_icon() -> (r: NotifyIcon)
    ensures
        r == NotifyIcon::Info,
{
    NotifyIcon::Info
}

/// What contracts see of a notification request.
pub struct NotifyRequestView {
    pub title: Seq<char>,
    pub body: Seq<char>,
    pub icon: NotifyIcon,
}

impl View for NotifyRequest {
    type V = NotifyRequestView;

    open spec fn view(&self) -> NotifyRequestView {
        NotifyRequestView { title: self.title@, body: self.body@, icon: self.icon }
    }
}

/// Shows notifications on the host.
pub trait NotificationBackend: Send + Sync {
    /// Whether `outcome` is what showing `req` can give: the record that ties
    /// each answer of the backend to the request it was handed.
    open spec fn delivers(&self, req: NotifyRequestView, outcome: Result<(), BackendError>) -> bool {
        true
    }

    fn notify(&self, req: &NotifyRequest) -> (r: Result<(), BackendError>)
        ensures
            self.delivers(req@, r),
    ;
}

/// Notifier for platforms without notifications: accepts every request and
/// shows nothing.
pub struct StubNotifier;

impl NotificationBackend for StubNotifier {
    open spec fn delivers(&self, req: NotifyRequestView, outcome: Result<(), BackendError>) -> bool {
        outcome is Ok
    }

    fn notify(&self, req: &NotifyRequest) -> (r: Result<(), BackendError>)
        ensures
            r is Ok,
    {
        Ok(())
    }
}

/// How one character is written in XML text.
pub open spec fn escape_char(c: char) -> Seq<char> {
    if c == '&' {
        "&amp;"@
    } else if c == '<' {
        "&lt;"@
    } else if c == '>' {
        "&gt;"@
    } else if c == '"' {
        "&quot;"@
    } else if c == '\'' {
        "&apos;"@
    } else {
        seq![c]
    }
}

/// `s` with each XML special character replaced by its entity.
pub open spec fn escape_xml_spec(s: Seq<char>) -> Seq<char>
    decreases s.len(),
{
    if s.len() == 0 {
        Seq::empty()
    } else {
        escape_xml_spec(s.drop_last()) + escape_char(s.last())
    }
}

/// Escape XML special characters to prevent injection.
pub fn escape_xml(s: &str) -> (r: String)
    ensures
        r@ == escape_xml_spec(s@),
{
    let mut out = String::new();
    let n = s.unicode_len();
    let mut i: usize = 0;
    while i < n
        invariant
            n == s@.len(),
            i <= n,
            out@ == escape_xml_spec(s@.take(i as int)),
        decreases n - i,
    {
        let c = s.get_char(i);
        if c == '&' {
            out.append("&amp;");
        } else if c == '<' {
            out.append("&lt;");
        } else if c == '>' {
            out.append("&gt;");
        } else if c == '"' {
            out.append("&quot;");
        } else if c == '\'' {
            out.append("&apos;");
        } else {
            let one = s.substring_char(i, i + 1);
            assert(one@ =~= seq![c]);
            out.append(one);
        }
        assert(s@.take(i + 1).drop_last() =~= s@.take(i as int));
        i = i + 1;
    }
    assert(s@.take(n as int) =~= s@);
    out
}

/// Whether `c` is one of the characters that XML text escapes.
pub open spec fn is_xml_special(c: char) -> bool {
    c == '&' || c == '<' || c == '>' || c == '"' || c == '\''
}

/// Escaping distributes over concatenation.
pub proof fn law_escape_concat(a: Seq<char>, b: Seq<char>)
    ensures
        escape_xml_spec(a + b) == escape_xml_spec(a) + escape_xml_spec(b),
    decreases b.len(),
{
    if b.len() == 0 {
        assert(a + b =~= a);
        assert(escape_xml_spec(b) =~= Seq::<char>::empty());
        assert(escape_xml_spec(a) + escape_xml_spec(b) =~= escape_xml_spec(a));
    } else {
        law_escape_concat(a, b.drop_last());
        assert((a + b).drop_last() =~= a + b.drop_last());
        assert((a + b).last() == b.last());
        assert(escape_xml_spec(a) + escape_xml_spec(b.drop_last()) + escape_char(b.last())
            =~= escape_xml_spec(a) + (escape_xml_spec(b.drop_last()) + escape_char(b.last())));
    }
}

/// Escaped text holds no markup characters: no `<`, `>`, `"` or `'` survives.
pub proof fn law_escaped_text_has_no_markup(s: Seq<char>)
    ensures
        forall|k: int|
            0 <= k < escape_xml_spec(s).len() ==> {
                let c = #[trigger] escape_xml_spec(s)[k];
                c != '<' && c != '>' && c != '"' && c != '\''
            },
    decreases s.len(),
{
    reveal_strlit("&amp;");
    reveal_strlit("&lt;");
    reveal_strlit("&gt;");
    reveal_strlit("&quot;");
    reveal_strlit("&apos;");
    if s.len() > 0 {
        law_escaped_text_has_no_markup(s.drop_last());
        let prefix = escape_xml_spec(s.drop_last());
        let last = escape_char(s.last());
        assert(escape_xml_spec(s) == prefix + last);
        assert forall|k: int| 0 <= k < escape_xml_spec(s).len() implies {
            let c = #[trigger] escape_xml_spec(s)[k];
            c != '<' && c != '>' && c != '"' && c != '\''
        } by {
            if k < prefix.len() {
                assert(escape_xml_spec(s)[k] == prefix[k]);
            } else {
                assert(escape_xml_spec(s)[k] == last[k - prefix.len()]);
            }
        }
    }
}

/// Whether `t` begins with `prefix`, which is `n` characters long.
pub open spec fn starts_with(t: Seq<char>, prefix: Seq<char>, n: int) -> bool {
    t.len() >= n && t.take(n) == prefix
}

/// XML text read back: scanning left to right, each of the entities `&amp;`,
/// `&lt;`, `&gt;`, `&quot;` and `&apos;` becomes the character it stands for;
/// every other character stands for itself.
pub open spec fn unescape_xml_spec(t: Seq<char>) -> Seq<char>
    decreases t.len(),
{
    if t.len() == 0 {
        Seq::empty()
    } else if starts_with(t, "&amp;"@, 5) {
        seq!['&'] + unescape_xml_spec(t.skip(5))
    } else if starts_with(t, "&lt;"@, 4) {
        seq!['<'] + unescape_xml_spec(t.skip(4))
    } else if starts_with(t, "&gt;"@, 4) {
        seq!['>'] + unescape_xml_spec(t.skip(4))
    } else if starts_with(t, "&quot;"@, 6) {
        seq!['"'] + unescape_xml_spec(t.skip(6))
    } else if starts_with(t, "&apos;"@, 6) {
        seq!['\''] + unescape_xml_spec(t.skip(6))
    } else {
        seq![t[0]] + unescape_xml_spec(t.drop_first())
    }
}

/// Reading back the escape of one character, followed by any text, gives the
/// character followed by that text read back.
proof fn lemma_unescape_one(c: char, rest: Seq<char>)
    ensures
        unescape_xml_spec(escape_char(c) + rest) == seq![c] + unescape_xml_spec(rest),
{
    reveal_strlit("&amp;");
    reveal_strlit("&lt;");
    reveal_strlit("&gt;");
    reveal_strlit("&quot;");
    reveal_strlit("&apos;");
    let t = escape_char(c) + rest;
    let e = escape_char(c);
    assert(t.len() > 0);
    assert(t[0] == e[0]);
    if e.len() > 1 {
        assert(t[1] == e[1]);
    }
    if e.len() > 2 {
        assert(t[2] == e[2]);
    }
    if c == '&' {
        assert(t.take(5) =~= "&amp;"@);
        assert(t.skip(5) =~= rest);
    } else if c == '<' {
        assert(!starts_with(t, "&amp;"@, 5)) by {
            if starts_with(t, "&amp;"@, 5) {
                assert(t.take(5)[1] == 'a');
            }
        }
        assert(t.take(4) =~= "&lt;"@);
        assert(t.skip(4) =~= rest);
    } else if c == '>' {
        assert(!starts_with(t, "&amp;"@, 5)) by {
            if starts_with(t, "&amp;"@, 5) {
                assert(t.take(5)[1] == 'a');
            }
        }
        assert(!starts_with(t, "&lt;"@, 4)) by {
            if starts_with(t, "&lt;"@, 4) {
                assert(t.take(4)[1] == 'l');
            }
        }
        assert(t.take(4) =~= "&gt;"@);
        assert(t.skip(4) =~= rest);
    } else if c == '"' {
        assert(!starts_with(t, "&amp;"@, 5)) by {
            if starts_with(t, "&amp;"@, 5) {
                assert(t.take(5)[1] == 'a');
            }
        }
        assert(!starts_with(t, "&lt;"@, 4)) by {
            if starts_with(t, "&lt;"@, 4) {
                assert(t.take(4)[1] == 'l');
            }
        }
        assert(!starts_with(t, "&gt;"@, 4)) by {
            if starts_with(t, "&gt;"@, 4) {
                assert(t.take(4)[1] == 'g');
            }
        }
        assert(t.take(6) =~= "&quot;"@);
        assert(t.skip(6) =~= rest);
    } else if c == '\'' {
        assert(!starts_with(t, "&amp;"@, 5)) by {
            if starts_with(t, "&amp;"@, 5) {
                assert(t.take(5)[2] == 'm');
            }
        }
        assert(!starts_with(t, "&lt;"@, 4)) by {
            if starts_with(t, "&lt;"@, 4) {
                assert(t.take(4)[1] == 'l');
            }
        }
        assert(!starts_with(t, "&gt;"@, 4)) by {
            if starts_with(t, "&gt;"@, 4) {
                assert(t.take(4)[1] == 'g');
            }
        }
        assert(!starts_with(t, "&quot;"@, 6)) by {
            if starts_with(t, "&quot;"@, 6) {
                assert(t.take(6)[1] == 'q');
            }
        }
        assert(t.take(6) =~= "&apos;"@);
        assert(t.skip(6) =~= rest);
    } else {
        assert(!starts_with(t, "&amp;"@, 5)) by {
            if starts_with(t, "&amp;"@, 5) {
                assert(t.take(5)[0] == '&');
            }
        }
        assert(!starts_with(t, "&lt;"@, 4)) by {
            if starts_with(t, "&lt;"@, 4) {
                assert(t.take(4)[0] == '&');
            }
        }
        assert(!starts_with(t, "&gt;"@, 4)) by {
            if starts_with(t, "&gt;"@, 4) {
                assert(t.take(4)[0] == '&');
            }
        }
        assert(!starts_with(t, "&quot;"@, 6)) by {
            if starts_with(t, "&quot;"@, 6) {
                assert(t.take(6)[0] == '&');
            }
        }
        assert(!starts_with(t, "&apos;"@, 6)) by {
            if starts_with(t, "&apos;"@, 6) {
                assert(t.take(6)[0] == '&');
            }
        }
        assert(t.drop_first() =~= rest);
    }
}

/// Escaping loses nothing: reading escaped text back gives the original text.
pub proof fn law_unescape_inverts_escape(s: Seq<char>)
    ensures
        unescape_xml_spec(escape_xml_spec(s)) == s,
    decreases s.len(),
{
    if s.len() == 0 {
        assert(escape_xml_spec(s) =~= Seq::<char>::empty());
    } else {
        let head = seq![s[0]];
        let tail = s.drop_first();
        assert(s =~= head + tail);
        law_escape_concat(head, tail);
        assert(head.drop_last() =~= Seq::<char>::empty());
        assert(escape_xml_spec(Seq::<char>::empty()) =~= Seq::<char>::empty());
        assert(head.last() == s[0]);
        assert(escape_xml_spec(head) =~= escape_char(s[0]));
        lemma_unescape_one(s[0], escape_xml_spec(tail));
        law_unescape_inverts_escape(tail);
        assert(seq![s[0]] + tail =~= s);
    }
}

/// Whether `t` begins with one of the five entities that escaping writes.
pub open spec fn starts_with_entity(t: Seq<char>) -> bool {
    ||| starts_with(t, "&amp;"@, 5)
    ||| starts_with(t, "&lt;"@, 4)
    ||| starts_with(t, "&gt;"@, 4)
    ||| starts_with(t, "&quot;"@, 6)
    ||| starts_with(t, "&apos;"@, 6)
}

/// Escaped text cannot open markup: every `&` in it starts one of the five entities.
pub proof fn law_every_ampersand_starts_an_entity(s: Seq<char>)
    ensures
        forall|k: int|
            0 <= k < escape_xml_spec(s).len() && escape_xml_spec(s)[k] == '&' ==> starts_with_entity(
                #[trigger] escape_xml_spec(s).skip(k),
            ),
    decreases s.len(),
{
    reveal_strlit("&amp;");
    reveal_strlit("&lt;");
    reveal_strlit("&gt;");
    reveal_strlit("&quot;");
    reveal_strlit("&apos;");
    if s.len() > 0 {
        law_every_ampersand_starts_an_entity(s.drop_last());
        let prefix = escape_xml_spec(s.drop_last());
        let last = escape_char(s.last());
        let t = escape_xml_spec(s);
        assert(t == prefix + last);
        assert forall|k: int| 0 <= k < t.len() && t[k] == '&' implies starts_with_entity(
            #[trigger] t.skip(k),
        ) by {
            if k < prefix.len() {
                assert(prefix[k] == '&');
                assert(starts_with_entity(prefix.skip(k)));
                let p = prefix.skip(k);
                assert(t.skip(k) =~= p + last);
                if p.len() >= 5 {
                    assert((p + last).take(5) =~= p.take(5));
                }
                if p.len() >= 4 {
                    assert((p + last).take(4) =~= p.take(4));
                }
                if p.len() >= 6 {
                    assert((p + last).take(6) =~= p.take(6));
                }
            } else {
                assert(last[k - prefix.len()] == '&');
                assert(k == prefix.len());
                assert(t.skip(k) =~= last);
                assert(last.take(last.len() as int) =~= last);
            }
        }
    }
}

/// Text without special characters is left as it is.
pub proof fn law_plain_text_unchanged(s: Seq<char>)
    requires
        forall|i: int| 0 <= i < s.len() ==> !is_xml_special(#[trigger] s[i]),
    ensures
        escape_xml_spec(s) == s,
    decreases s.len(),
{
    if s.len() > 0 {
        law_plain_text_unchanged(s.drop_last());
        assert(!is_xml_special(s[s.len() - 1]));
        assert(s.drop_last() + seq![s.last()] =~= s);
    } else {
        assert(escape_xml_spec(s) =~= s);
    }
}

/// The toast template up to the title.
pub open spec fn toast_head() -> Seq<char> {
    "<toast>\n                <visual>\n                    <binding template=\"ToastGeneric\">\n                        <text>"@
}

/// The toast template between the title and the body.
pub open spec fn toast_middle() -> Seq<char> {
    "</text>\n                        <text>"@
}

/// The toast template after the body.
pub open spec fn toast_tail() -> Seq<char> {
    "</text>\n                    </binding>\n                </visual>\n            </toast>"@
}

/// The toast XML document that shows `title` and `body`, both escaped.
pub fn toast_xml(title: &str, body: &str) -> (r: String)
    ensures
        r@ == toast_head() + escape_xml_spec(title@) + toast_middle() + escape_xml_spec(body@)
            + toast_tail(),
{
    let mut xml = String::from_str(
        "<toast>\n                <visual>\n                    <binding template=\"ToastGeneric\">\n                        <text>",
    );
    let t = escape_xml(title);
    xml.append(t.as_str());
    xml.append("</text>\n                        <text>");
    let b = escape_xml(body);
    xml.append(b.as_str());
    xml.append("</text>\n                    </binding>\n                </visual>\n            </toast>");
    xml
}

} // verus!
