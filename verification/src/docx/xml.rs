//! String-based XML serializer for OOXML parts.
//!
//! - Children of an element are written between [`XmlBuf::open`] and
//!   [`XmlBuf::close`], or handed to [`XmlBuf::elem`] already serialized;
//!   the specification of every part states its whole text, so opening
//!   and closing tags are checked to match.
//! - No reordering, no normalization: child order is exactly what the
//!   caller emits (OOXML is order-sensitive).
//! - No indentation: inside `<w:t>` leading/trailing whitespace matters.
//! - Element text escapes `&`, `<`, `>`; attribute values also escape
//!   `"` and `'`.

use vstd::prelude::*;

use crate::text::{push_char, push_str};

verus! {

/// Attribute list as plain values: `(name, value)` pairs.
pub open spec fn attr_views(a: Seq<(&str, &str)>) -> Seq<(Seq<char>, Seq<char>)> {
    a.map_values(|p: (&str, &str)| (p.0@, p.1@))
}

/// Escaping of one character of element text.
pub open spec fn esc_text_char(c: char) -> Seq<char> {
    if c == '&' {
        "&amp;"@
    } else if c == '<' {
        "&lt;"@
    } else if c == '>' {
        "&gt;"@
    } else {
        seq![c]
    }
}

/// Element text with `&`, `<`, `>` escaped.
pub open spec fn esc_text(s: Seq<char>) -> Seq<char>
    decreases s.len(),
{
    if s.len() == 0 {
        Seq::empty()
    } else {
        esc_text(s.drop_last()) + esc_text_char(s.last())
    }
}

/// Escaping of one character of an attribute value.
pub open spec fn esc_attr_char(c: char) -> Seq<char> {
    if c == '&' {
        "&amp;"@
    } else if c == '<' {
        "&lt;"@
    } else if c == '>' {
        "&gt;"@
    } else if c == '"' {
        "&quot;"@
    } else if c == '\'' {
        "&apos;"@
    } else {
        seq![c]
    }
}

/// Attribute value with `&`, `<`, `>`, `"`, `'` escaped.
pub open spec fn esc_attr(s: Seq<char>) -> Seq<char>
    decreases s.len(),
{
    if s.len() == 0 {
        Seq::empty()
    } else {
        esc_attr(s.drop_last()) + esc_attr_char(s.last())
    }
}

/// ` k="v"` with the value escaped.
pub open spec fn attr_str(k: Seq<char>, v: Seq<char>) -> Seq<char> {
    seq![' '] + k + "=\""@ + esc_attr(v) + seq!['"']
}

/// All attributes, in order.
pub open spec fn attrs_str(a: Seq<(Seq<char>, Seq<char>)>) -> Seq<char>
    decreases a.len(),
{
    if a.len() == 0 {
        Seq::empty()
    } else {
        attrs_str(a.drop_last()) + attr_str(a.last().0, a.last().1)
    }
}

/// ` xmlns:p="uri"` declarations, in order.
pub open spec fn ns_str(n: Seq<(Seq<char>, Seq<char>)>) -> Seq<char>
    decreases n.len(),
{
    if n.len() == 0 {
        Seq::empty()
    } else {
        ns_str(n.drop_last()) + " xmlns:"@ + n.last().0 + "=\""@ + esc_attr(n.last().1)
            + seq!['"']
    }
}

/// `<name ns... attrs...>` or, self-closing, `<name ns... attrs.../>`.
pub open spec fn open_tag(
    name: Seq<char>,
    n: Seq<(Seq<char>, Seq<char>)>,
    a: Seq<(Seq<char>, Seq<char>)>,
    self_closing: bool,
) -> Seq<char> {
    seq!['<'] + name + ns_str(n) + attrs_str(a) + if self_closing {
        "/>"@
    } else {
        seq!['>']
    }
}

/// `<name attrs...>`.
pub open spec fn start_tag(name: Seq<char>, a: Seq<(Seq<char>, Seq<char>)>) -> Seq<char> {
    open_tag(name, Seq::empty(), a, false)
}

/// `<name attrs.../>`.
pub open spec fn empty_tag(name: Seq<char>, a: Seq<(Seq<char>, Seq<char>)>) -> Seq<char> {
    open_tag(name, Seq::empty(), a, true)
}

/// `</name>`.
pub open spec fn end_tag(name: Seq<char>) -> Seq<char> {
    "</"@ + name + seq!['>']
}

/// An element around already-serialized children.
pub open spec fn element(
    name: Seq<char>,
    a: Seq<(Seq<char>, Seq<char>)>,
    kids: Seq<char>,
) -> Seq<char> {
    start_tag(name, a) + kids + end_tag(name)
}

/// An element with namespace declarations around serialized children.
pub open spec fn element_ns(
    name: Seq<char>,
    n: Seq<(Seq<char>, Seq<char>)>,
    a: Seq<(Seq<char>, Seq<char>)>,
    kids: Seq<char>,
) -> Seq<char> {
    open_tag(name, n, a, false) + kids + end_tag(name)
}

/// `<name attrs [xml:space="preserve"]>escaped text</name>`.
pub open spec fn text_elem(
    name: Seq<char>,
    a: Seq<(Seq<char>, Seq<char>)>,
    text: Seq<char>,
    preserve: bool,
) -> Seq<char> {
    seq!['<'] + name + attrs_str(a) + (if preserve {
        " xml:space=\"preserve\""@
    } else {
        Seq::empty()
    }) + seq!['>'] + esc_text(text) + end_tag(name)
}

/// The XML declaration every OOXML part starts with.
pub open spec fn xml_declaration() -> Seq<char> {
    "<?xml version=\"1.0\" encoding=\"UTF-8\" standalone=\"yes\"?>\n"@
}

/// In-memory XML buffer. Construct, append, then call [`XmlBuf::finish`]
/// to get the underlying `String`.
pub struct XmlBuf {
    buf: String,
}

impl View for XmlBuf {
    type V = Seq<char>;

    closed spec fn view(&self) -> Seq<char> {
        self.buf@
    }
}

/// A namespace declaration emitted on an element (typically the root).
/// `prefix` is the part after `xmlns:` (e.g. `"w"`), `uri` the namespace.
pub struct Ns<'a> {
    pub prefix: &'a str,
    pub uri: &'a str,
}

/// Namespace declarations as plain values.
pub open spec fn ns_views(n: Seq<Ns>) -> Seq<(Seq<char>, Seq<char>)> {
    n.map_values(|x: Ns| (x.prefix@, x.uri@))
}

fn write_escaped_text(buf: &mut String, s: &str)
    ensures
        final(buf)@ == old(buf)@ + esc_text(s@),
{
    let ghost start = buf@;
    let ghost mut n: int = 0;
    for c in it: s.chars()
        invariant
            it.seq() == s@,
            n == it.index(),
            buf@ == start + esc_text(s@.take(n)),
    {
        proof {
            assert(s@.take(n + 1).drop_last() =~= s@.take(n));
        }
        if c == '&' {
            push_str(buf, "&amp;");
        } else if c == '<' {
            push_str(buf, "&lt;");
        } else if c == '>' {
            push_str(buf, "&gt;");
        } else {
            push_char(buf, c);
            proof {
                assert(start + esc_text(s@.take(n)) + seq![c] =~= start + esc_text(s@.take(n)).push(c));
            }
        }
        proof {
            assert(buf@ =~= start + esc_text(s@.take(n + 1)));
            n = n + 1;
        }
    }
    proof {
        assert(s@.take(n) =~= s@);
    }
}

pub(crate) fn write_escaped_attr(buf: &mut String, s: &str)
    ensures
        final(buf)@ == old(buf)@ + esc_attr(s@),
{
    let ghost start = buf@;
    let ghost mut n: int = 0;
    for c in it: s.chars()
        invariant
            it.seq() == s@,
            n == it.index(),
            buf@ == start + esc_attr(s@.take(n)),
    {
        proof {
            assert(s@.take(n + 1).drop_last() =~= s@.take(n));
        }
        if c == '&' {
            push_str(buf, "&amp;");
        } else if c == '<' {
            push_str(buf, "&lt;");
        } else if c == '>' {
            push_str(buf, "&gt;");
        } else if c == '"' {
            push_str(buf, "&quot;");
        } else if c == '\'' {
            push_str(buf, "&apos;");
        } else {
            push_char(buf, c);
        }
        proof {
            assert(buf@ =~= start + esc_attr(s@.take(n + 1)));
            n = n + 1;
        }
    }
    proof {
        assert(s@.take(n) =~= s@);
    }
}

fn write_attr(buf: &mut String, k: &str, v: &str)
    ensures
        final(buf)@ == old(buf)@ + attr_str(k@, v@),
{
    push_char(buf, ' ');
    push_str(buf, k);
    push_str(buf, "=\"");
    write_escaped_attr(buf, v);
    push_char(buf, '"');
    proof {
        assert(final(buf)@ =~= old(buf)@ + attr_str(k@, v@));
    }
}

fn write_attrs(buf: &mut String, attrs: &[(&str, &str)])
    ensures
        final(buf)@ == old(buf)@ + attrs_str(attr_views(attrs@)),
{
    let ghost start = buf@;
    let mut i: usize = 0;
    while i < attrs.len()
        invariant
            i <= attrs@.len(),
            buf@ == start + attrs_str(attr_views(attrs@).take(i as int)),
        decreases attrs@.len() - i,
    {
        let (k, v) = attrs[i];
        write_attr(buf, k, v);
        proof {
            assert(attr_views(attrs@).take(i + 1).drop_last() =~= attr_views(attrs@).take(
                i as int,
            ));
            assert(buf@ =~= start + attrs_str(attr_views(attrs@).take(i + 1)));
        }
        i = i + 1;
    }
    proof {
        assert(attr_views(attrs@).take(i as int) =~= attr_views(attrs@));
    }
}

fn write_ns(buf: &mut String, nss: &[Ns<'_>])
    ensures
        final(buf)@ == old(buf)@ + ns_str(ns_views(nss@)),
{
    let ghost start = buf@;
    let mut i: usize = 0;
    while i < nss.len()
        invariant
            i <= nss@.len(),
            buf@ == start + ns_str(ns_views(nss@).take(i as int)),
        decreases nss@.len() - i,
    {
        let ns = &nss[i];
        push_str(buf, " xmlns:");
        push_str(buf, ns.prefix);
        push_str(buf, "=\"");
        write_escaped_attr(buf, ns.uri);
        push_char(buf, '"');
        proof {
            assert(ns_views(nss@).take(i + 1).drop_last() =~= ns_views(nss@).take(i as int));
            assert(buf@ =~= start + ns_str(ns_views(nss@).take(i + 1)));
        }
        i = i + 1;
    }
    proof {
        assert(ns_views(nss@).take(i as int) =~= ns_views(nss@));
    }
}

impl XmlBuf {
    pub fn new() -> (x: Self)
        ensures
            x@ == Seq::<char>::empty(),
    {
        Self { buf: String::new() }
    }

    /// Emit the XML declaration. Always UTF-8, always `standalone="yes"`.
    pub fn xml_decl(&mut self)
        ensures
            final(self)@ == old(self)@ + xml_declaration(),
    {
        push_str(&mut self.buf, "<?xml version=\"1.0\" encoding=\"UTF-8\" standalone=\"yes\"?>\n");
    }

    /// `<name attrs ...>`: the start of an element whose children follow.
    pub fn open(&mut self, name: &str, attrs: &[(&str, &str)])
        ensures
            final(self)@ == old(self)@ + start_tag(name@, attr_views(attrs@)),
    {
        self.write_open_tag(name, attrs, &[], false);
        proof {
            assert(ns_views(Seq::<Ns>::empty()) =~= Seq::empty());
        }
    }

    /// `<name xmlns:... attrs ...>`: the start of an element carrying
    /// namespace declarations (typically a part's root).
    pub fn open_with_ns(&mut self, name: &str, nss: &[Ns<'_>], attrs: &[(&str, &str)])
        ensures
            final(self)@ == old(self)@ + open_tag(name@, ns_views(nss@), attr_views(attrs@), false),
    {
        self.write_open_tag(name, attrs, nss, false);
    }

    /// `</name>`: the end of an element.
    pub fn close(&mut self, name: &str)
        ensures
            final(self)@ == old(self)@ + end_tag(name@),
    {
        push_str(&mut self.buf, "</");
        push_str(&mut self.buf, name);
        push_char(&mut self.buf, '>');
        proof {
            assert(final(self)@ =~= old(self)@ + end_tag(name@));
        }
    }

    /// An element around already-serialized children `inner`.
    pub fn elem(&mut self, name: &str, attrs: &[(&str, &str)], inner: &str)
        ensures
            final(self)@ == old(self)@ + element(name@, attr_views(attrs@), inner@),
    {
        self.open(name, attrs);
        push_str(&mut self.buf, inner);
        self.close(name);
        proof {
            assert(final(self)@ =~= old(self)@ + element(name@, attr_views(attrs@), inner@));
        }
    }

    /// An element with namespace declarations around already-serialized
    /// children `inner`.
    pub fn elem_with_ns(&mut self, name: &str, nss: &[Ns<'_>], attrs: &[(&str, &str)], inner: &str)
        ensures
            final(self)@ == old(self)@ + element_ns(
                name@,
                ns_views(nss@),
                attr_views(attrs@),
                inner@,
            ),
    {
        self.open_with_ns(name, nss, attrs);
        push_str(&mut self.buf, inner);
        self.close(name);
        proof {
            assert(final(self)@ =~= old(self)@ + element_ns(
                name@,
                ns_views(nss@),
                attr_views(attrs@),
                inner@,
            ));
        }
    }

    /// Self-closing element: `<name attrs .../>`.
    pub fn empty(&mut self, name: &str, attrs: &[(&str, &str)])
        ensures
            final(self)@ == old(self)@ + empty_tag(name@, attr_views(attrs@)),
    {
        self.write_open_tag(name, attrs, &[], true);
        proof {
            assert(ns_views(Seq::<Ns>::empty()) =~= Seq::empty());
        }
    }

    /// Element wrapping a single text node: `<name attrs ...>escaped
    /// text</name>`; `preserve` adds `xml:space="preserve"`.
    pub fn elem_text(&mut self, name: &str, attrs: &[(&str, &str)], text: &str, preserve: bool)
        ensures
            final(self)@ == old(self)@ + text_elem(name@, attr_views(attrs@), text@, preserve),
    {
        push_char(&mut self.buf, '<');
        push_str(&mut self.buf, name);
        write_attrs(&mut self.buf, attrs);
        if preserve {
            push_str(&mut self.buf, " xml:space=\"preserve\"");
        }
        push_char(&mut self.buf, '>');
        write_escaped_text(&mut self.buf, text);
        push_str(&mut self.buf, "</");
        push_str(&mut self.buf, name);
        push_char(&mut self.buf, '>');
        proof {
            assert(final(self)@ =~= old(self)@ + text_elem(
                name@,
                attr_views(attrs@),
                text@,
                preserve,
            ));
        }
    }

    /// Append text as character data, escaping XML specials.
    pub fn text(&mut self, s: &str)
        ensures
            final(self)@ == old(self)@ + esc_text(s@),
    {
        write_escaped_text(&mut self.buf, s);
    }

    /// Append raw, already-well-formed XML verbatim.
    pub fn raw(&mut self, xml: &str)
        ensures
            final(self)@ == old(self)@ + xml@,
    {
        push_str(&mut self.buf, xml);
    }

    /// Consume the buffer and return the serialized XML.
    pub fn finish(self) -> (s: String)
        ensures
            s@ == self@,
    {
        self.buf
    }

    fn write_open_tag(
        &mut self,
        name: &str,
        attrs: &[(&str, &str)],
        nss: &[Ns<'_>],
        self_closing: bool,
    )
        ensures
            final(self)@ == old(self)@ + open_tag(
                name@,
                ns_views(nss@),
                attr_views(attrs@),
                self_closing,
            ),
    {
        push_char(&mut self.buf, '<');
        push_str(&mut self.buf, name);
        write_ns(&mut self.buf, nss);
        write_attrs(&mut self.buf, attrs);
        if self_closing {
            push_str(&mut self.buf, "/>");
        } else {
            push_char(&mut self.buf, '>');
        }
        proof {
            assert(final(self)@ =~= old(self)@ + open_tag(
                name@,
                ns_views(nss@),
                attr_views(attrs@),
                self_closing,
            ));
        }
    }
}


/// No attributes.
pub open spec fn no_attrs() -> Seq<(Seq<char>, Seq<char>)> {
    Seq::empty()
}

/// One attribute.
pub open spec fn attr1(k: Seq<char>, v: Seq<char>) -> Seq<(Seq<char>, Seq<char>)> {
    seq![(k, v)]
}

/// Two attributes.
pub open spec fn attr2(k1: Seq<char>, v1: Seq<char>, k2: Seq<char>, v2: Seq<char>) -> Seq<
    (Seq<char>, Seq<char>),
> {
    seq![(k1, v1), (k2, v2)]
}

/// Three attributes.
pub open spec fn attr3(
    k1: Seq<char>,
    v1: Seq<char>,
    k2: Seq<char>,
    v2: Seq<char>,
    k3: Seq<char>,
    v3: Seq<char>,
) -> Seq<(Seq<char>, Seq<char>)> {
    seq![(k1, v1), (k2, v2), (k3, v3)]
}

impl XmlBuf {
    /// `<name k1="v1" k2="v2" k3="v3"/>`.
    pub fn empty3(&mut self, name: &str, k1: &str, v1: &str, k2: &str, v2: &str, k3: &str, v3: &str)
        ensures
            final(self)@ == old(self)@ + empty_tag(name@, attr3(k1@, v1@, k2@, v2@, k3@, v3@)),
    {
        let a: &[(&str, &str)] = &[(k1, v1), (k2, v2), (k3, v3)];
        proof {
            assert(attr_views(a@) =~= attr3(k1@, v1@, k2@, v2@, k3@, v3@));
        }
        self.empty(name, a);
    }

    /// `<name>` with no attributes.
    pub fn open0(&mut self, name: &str)
        ensures
            final(self)@ == old(self)@ + start_tag(name@, no_attrs()),
    {
        let a: &[(&str, &str)] = &[];
        proof {
            assert(attr_views(a@) =~= no_attrs());
        }
        self.open(name, a);
    }

    /// `<name k="v">`.
    pub fn open1(&mut self, name: &str, k: &str, v: &str)
        ensures
            final(self)@ == old(self)@ + start_tag(name@, attr1(k@, v@)),
    {
        let a: &[(&str, &str)] = &[(k, v)];
        proof {
            assert(attr_views(a@) =~= attr1(k@, v@));
        }
        self.open(name, a);
    }

    /// `<name k1="v1" k2="v2">`.
    pub fn open2(&mut self, name: &str, k1: &str, v1: &str, k2: &str, v2: &str)
        ensures
            final(self)@ == old(self)@ + start_tag(name@, attr2(k1@, v1@, k2@, v2@)),
    {
        let a: &[(&str, &str)] = &[(k1, v1), (k2, v2)];
        proof {
            assert(attr_views(a@) =~= attr2(k1@, v1@, k2@, v2@));
        }
        self.open(name, a);
    }

    /// `<name/>`.
    pub fn empty0(&mut self, name: &str)
        ensures
            final(self)@ == old(self)@ + empty_tag(name@, no_attrs()),
    {
        let a: &[(&str, &str)] = &[];
        proof {
            assert(attr_views(a@) =~= no_attrs());
        }
        self.empty(name, a);
    }

    /// `<name k="v"/>`.
    pub fn empty1(&mut self, name: &str, k: &str, v: &str)
        ensures
            final(self)@ == old(self)@ + empty_tag(name@, attr1(k@, v@)),
    {
        let a: &[(&str, &str)] = &[(k, v)];
        proof {
            assert(attr_views(a@) =~= attr1(k@, v@));
        }
        self.empty(name, a);
    }

    /// `<name k1="v1" k2="v2"/>`.
    pub fn empty2(&mut self, name: &str, k1: &str, v1: &str, k2: &str, v2: &str)
        ensures
            final(self)@ == old(self)@ + empty_tag(name@, attr2(k1@, v1@, k2@, v2@)),
    {
        let a: &[(&str, &str)] = &[(k1, v1), (k2, v2)];
        proof {
            assert(attr_views(a@) =~= attr2(k1@, v1@, k2@, v2@));
        }
        self.empty(name, a);
    }

    /// `<name>escaped text</name>`, optionally with `xml:space="preserve"`.
    pub fn text0(&mut self, name: &str, text: &str, preserve: bool)
        ensures
            final(self)@ == old(self)@ + text_elem(name@, no_attrs(), text@, preserve),
    {
        let a: &[(&str, &str)] = &[];
        proof {
            assert(attr_views(a@) =~= no_attrs());
        }
        self.elem_text(name, a, text, preserve);
    }

    /// `<name k="v">escaped text</name>`.
    pub fn text1(&mut self, name: &str, k: &str, v: &str, text: &str, preserve: bool)
        ensures
            final(self)@ == old(self)@ + text_elem(name@, attr1(k@, v@), text@, preserve),
    {
        let a: &[(&str, &str)] = &[(k, v)];
        proof {
            assert(attr_views(a@) =~= attr1(k@, v@));
        }
        self.elem_text(name, a, text, preserve);
    }
}

/// Shorthand: a complete XML document — the declaration plus one root
/// element with namespace declarations around serialized children.
pub fn document(root: &str, nss: &[Ns<'_>], inner: &str) -> (s: String)
    ensures
        s@ == xml_declaration() + element_ns(root@, ns_views(nss@), Seq::empty(), inner@),
{
    let mut x = XmlBuf::new();
    x.xml_decl();
    x.elem_with_ns(root, nss, &[], inner);
    proof {
        assert(attr_views(Seq::<(&str, &str)>::empty()) =~= Seq::empty());
    }
    let s = x.finish();
    proof {
        assert(s@ =~= xml_declaration() + element_ns(root@, ns_views(nss@), Seq::empty(), inner@));
    }
    s
}

/// Escaped element text never contains `<` or `>`: no text can open or
/// close markup.
pub proof fn lemma_esc_text_has_no_angle_brackets(s: Seq<char>)
    ensures
        forall|i: int| 0 <= i < esc_text(s).len() ==> esc_text(s)[i] != '<' && esc_text(s)[i] != '>',
    decreases s.len(),
{
    reveal_strlit("&amp;");
    reveal_strlit("&lt;");
    reveal_strlit("&gt;");
    if s.len() > 0 {
        lemma_esc_text_has_no_angle_brackets(s.drop_last());
        let a = esc_text(s.drop_last());
        let b = esc_text_char(s.last());
        assert forall|i: int| 0 <= i < (a + b).len() implies (a + b)[i] != '<' && (a + b)[i]
            != '>' by {
            if i >= a.len() {
                assert((a + b)[i] == b[i - a.len()]);
            }
        }
    }
}

/// Escaped attribute values never contain `"`, `<` or `>`: a value cannot
/// end its attribute or its tag early.
pub proof fn lemma_esc_attr_has_no_quote(s: Seq<char>)
    ensures
        forall|i: int|
            0 <= i < esc_attr(s).len() ==> esc_attr(s)[i] != '"' && esc_attr(s)[i] != '<'
                && esc_attr(s)[i] != '>',
    decreases s.len(),
{
    reveal_strlit("&amp;");
    reveal_strlit("&lt;");
    reveal_strlit("&gt;");
    reveal_strlit("&quot;");
    reveal_strlit("&apos;");
    if s.len() > 0 {
        lemma_esc_attr_has_no_quote(s.drop_last());
        let a = esc_attr(s.drop_last());
        let b = esc_attr_char(s.last());
        assert forall|i: int| 0 <= i < (a + b).len() implies (a + b)[i] != '"' && (a + b)[i]
            != '<' && (a + b)[i] != '>' by {
            if i >= a.len() {
                assert((a + b)[i] == b[i - a.len()]);
            }
        }
    }
}

/// Text without markup characters is written unchanged.
pub proof fn lemma_esc_text_identity(s: Seq<char>)
    requires
        forall|i: int| 0 <= i < s.len() ==> s[i] != '&' && s[i] != '<' && s[i] != '>',
    ensures
        esc_text(s) == s,
    decreases s.len(),
{
    if s.len() > 0 {
        lemma_esc_text_identity(s.drop_last());
        assert(s.drop_last().push(s.last()) =~= s);
    } else {
        assert(s =~= Seq::<char>::empty());
    }
}

/// Escaping distributes over concatenation.
pub proof fn lemma_esc_text_append(a: Seq<char>, b: Seq<char>)
    ensures
        esc_text(a + b) == esc_text(a) + esc_text(b),
    decreases b.len(),
{
    if b.len() == 0 {
        assert(a + b =~= a);
        assert(esc_text(a) + esc_text(b) =~= esc_text(a));
    } else {
        lemma_esc_text_append(a, b.drop_last());
        assert((a + b).drop_last() =~= a + b.drop_last());
        assert((a + b).last() == b.last());
        assert(esc_text(a) + esc_text(b) =~= esc_text(a) + esc_text(b.drop_last()) + esc_text_char(
            b.last(),
        ));
    }
}

/// Reading escaped element text back, left to right: `&lt;`, `&gt;` and
/// `&amp;` become `<`, `>` and `&`; every other character stays.
pub open spec fn unescape_text(t: Seq<char>) -> Seq<char>
    decreases t.len(),
{
    if t.len() == 0 {
        Seq::empty()
    } else if t.len() >= 4 && t.take(4) == "&lt;"@ {
        seq!['<'] + unescape_text(t.skip(4))
    } else if t.len() >= 4 && t.take(4) == "&gt;"@ {
        seq!['>'] + unescape_text(t.skip(4))
    } else if t.len() >= 5 && t.take(5) == "&amp;"@ {
        seq!['&'] + unescape_text(t.skip(5))
    } else {
        seq![t[0]] + unescape_text(t.skip(1))
    }
}

proof fn lemma_unescape_step(c: char, rest: Seq<char>)
    ensures
        unescape_text(esc_text_char(c) + rest) == seq![c] + unescape_text(rest),
{
    reveal_strlit("&amp;");
    reveal_strlit("&lt;");
    reveal_strlit("&gt;");
    let x = esc_text_char(c);
    let t = x + rest;
    if c == '<' {
        assert(t.take(4) =~= "&lt;"@);
        assert(t.skip(4) =~= rest);
    } else if c == '>' {
        assert(t.take(4)[1] != "&lt;"@[1]);
        assert(t.take(4) =~= "&gt;"@);
        assert(t.skip(4) =~= rest);
    } else if c == '&' {
        assert(t.take(4)[1] != "&lt;"@[1]);
        assert(t.take(4)[1] != "&gt;"@[1]);
        assert(t.take(5) =~= "&amp;"@);
        assert(t.skip(5) =~= rest);
    } else {
        assert(t[0] == c);
        if t.len() >= 4 {
            assert(t.take(4)[0] != "&lt;"@[0]);
            assert(t.take(4)[0] != "&gt;"@[0]);
        }
        if t.len() >= 5 {
            assert(t.take(5)[0] != "&amp;"@[0]);
        }
        assert(t.skip(1) =~= rest);
    }
}

/// Escaping element text and reading it back gives the text again.
pub proof fn lemma_esc_text_round_trip(s: Seq<char>)
    ensures
        unescape_text(esc_text(s)) == s,
    decreases s.len(),
{
    if s.len() == 0 {
        assert(esc_text(s) =~= Seq::<char>::empty());
    } else {
        let c = s[0];
        let r = s.skip(1);
        assert(s =~= seq![c] + r);
        lemma_esc_text_append(seq![c], r);
        assert(seq![c].drop_last() =~= Seq::<char>::empty());
        assert(seq![c].last() == c);
        assert(esc_text(seq![c].drop_last()) =~= Seq::<char>::empty());
        assert(esc_text(seq![c]) =~= esc_text_char(c));
        lemma_unescape_step(c, esc_text(r));
        lemma_esc_text_round_trip(r);
        assert(seq![c] + r =~= s);
    }
}

/// Escaping never shortens text, and lengthens it as soon as it holds a
/// markup character.
proof fn lemma_esc_text_len(s: Seq<char>)
    ensures
        esc_text(s).len() >= s.len(),
        (exists|i: int| 0 <= i < s.len() && (s[i] == '&' || s[i] == '<' || s[i] == '>')) ==> esc_text(s).len()
            > s.len(),
    decreases s.len(),
{
    reveal_strlit("&amp;");
    reveal_strlit("&lt;");
    reveal_strlit("&gt;");
    if s.len() > 0 {
        lemma_esc_text_len(s.drop_last());
        if exists|i: int| 0 <= i < s.len() && (s[i] == '&' || s[i] == '<' || s[i] == '>') {
            let i = choose|i: int| 0 <= i < s.len() && (s[i] == '&' || s[i] == '<' || s[i] == '>');
            if i < s.len() - 1 {
                assert(s.drop_last()[i] == s[i]);
            }
        }
    }
}

/// Escaped text equals the text exactly when the text holds none of
/// `&`, `<`, `>`.
pub proof fn lemma_esc_text_unchanged_iff(s: Seq<char>)
    ensures
        esc_text(s) == s <==> forall|i: int| 0 <= i < s.len() ==> s[i] != '&' && s[i] != '<' && s[i] != '>',
{
    lemma_esc_text_len(s);
    if forall|i: int| 0 <= i < s.len() ==> s[i] != '&' && s[i] != '<' && s[i] != '>' {
        lemma_esc_text_identity(s);
    }
}

/// An entity `&amp;`, `&lt;` or `&gt;` starts at position `i`.
pub open spec fn entity_at(t: Seq<char>, i: int) -> bool {
    ||| i + 5 <= t.len() && t.subrange(i, i + 5) == "&amp;"@
    ||| i + 4 <= t.len() && t.subrange(i, i + 4) == "&lt;"@
    ||| i + 4 <= t.len() && t.subrange(i, i + 4) == "&gt;"@
}

/// In escaped element text every `&` begins an entity.
pub proof fn lemma_esc_text_amp_begins_entity(s: Seq<char>)
    ensures
        forall|i: int| 0 <= i < esc_text(s).len() && esc_text(s)[i] == '&' ==> #[trigger] entity_at(esc_text(s), i),
    decreases s.len(),
{
    reveal_strlit("&amp;");
    reveal_strlit("&lt;");
    reveal_strlit("&gt;");
    if s.len() > 0 {
        lemma_esc_text_amp_begins_entity(s.drop_last());
        let a = esc_text(s.drop_last());
        let b = esc_text_char(s.last());
        let t = a + b;
        assert(esc_text(s) == t);
        assert forall|i: int| 0 <= i < t.len() && t[i] == '&' implies #[trigger] entity_at(t, i) by {
            if i < a.len() {
                assert(a[i] == '&');
                assert(entity_at(a, i));
                if i + 5 <= a.len() && a.subrange(i, i + 5) == "&amp;"@ {
                    assert(t.subrange(i, i + 5) =~= a.subrange(i, i + 5));
                } else if i + 4 <= a.len() && a.subrange(i, i + 4) == "&lt;"@ {
                    assert(t.subrange(i, i + 4) =~= a.subrange(i, i + 4));
                } else {
                    assert(t.subrange(i, i + 4) =~= a.subrange(i, i + 4));
                }
            } else {
                assert(t[i] == b[i - a.len()]);
                let c = s.last();
                if c == '&' {
                    assert(i == a.len());
                    assert(t.subrange(i, i + 5) =~= b);
                } else if c == '<' {
                    assert(i == a.len());
                    assert(t.subrange(i, i + 4) =~= b);
                } else if c == '>' {
                    assert(i == a.len());
                    assert(t.subrange(i, i + 4) =~= b);
                }
            }
        }
    }
}

/// How many times `c` occurs in `t`.
pub open spec fn count_of(t: Seq<char>, c: char) -> nat
    decreases t.len(),
{
    if t.len() == 0 {
        0
    } else {
        count_of(t.drop_last(), c) + if t.last() == c {
            1nat
        } else {
            0nat
        }
    }
}

proof fn lemma_count_append(a: Seq<char>, b: Seq<char>, c: char)
    ensures
        count_of(a + b, c) == count_of(a, c) + count_of(b, c),
    decreases b.len(),
{
    if b.len() == 0 {
        assert(a + b =~= a);
    } else {
        lemma_count_append(a, b.drop_last(), c);
        assert((a + b).drop_last() =~= a + b.drop_last());
    }
}

/// Escaping element text keeps its quotes and apostrophes: each occurs
/// as often in the escaped text as in the text.
pub proof fn lemma_esc_text_keeps_quotes(s: Seq<char>)
    ensures
        count_of(esc_text(s), '"') == count_of(s, '"'),
        count_of(esc_text(s), '\'') == count_of(s, '\''),
    decreases s.len(),
{
    reveal_strlit("&amp;");
    reveal_strlit("&lt;");
    reveal_strlit("&gt;");
    if s.len() > 0 {
        lemma_esc_text_keeps_quotes(s.drop_last());
        let b = esc_text_char(s.last());
        lemma_count_append(esc_text(s.drop_last()), b, '"');
        lemma_count_append(esc_text(s.drop_last()), b, '\'');
        reveal_with_fuel(count_of, 6);
        if b.len() == 1 {
            assert(b.drop_last() =~= Seq::<char>::empty());
        }
    }
}

} // verus!

verus! {

/// Concatenation regroups freely; used to compare serialized parts built
/// piece by piece with their specifications.
pub broadcast proof fn lemma_concat_assoc(a: Seq<char>, b: Seq<char>, c: Seq<char>)
    ensures
        #[trigger] (a + (b + c)) == (a + b) + c,
{
    assert(a + (b + c) =~= (a + b) + c);
}

/// Appending nothing changes nothing.
pub broadcast proof fn lemma_concat_empty(a: Seq<char>)
    ensures
        #[trigger] (a + Seq::<char>::empty()) == a,
{
    assert(a + Seq::<char>::empty() =~= a);
}

pub broadcast group group_concat {
    lemma_concat_assoc,
    lemma_concat_empty,
}

} // verus!
