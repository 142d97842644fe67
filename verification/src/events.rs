use vstd::prelude::*;
use crate::values::ScriptValue;
use vstd::string::string_is_ascii;

verus! {

/// The position and length of the first attribute named `character`, if any.
pub open spec fn char_attr_span(attrs: Seq<YarnMarkupAttribute>) -> Option<(usize, usize)>
    decreases attrs.len(),
{
    if attrs.len() == 0 {
        None
    } else if attrs[0].name@ == "character"@ {
        Some((attrs[0].position, attrs[0].length))
    } else {
        char_attr_span(attrs.drop_first())
    }
}

/// When the entry at `i` is the first attribute named `character`, the span
/// is exactly its span.
proof fn lemma_char_attr_span_at(attrs: Seq<YarnMarkupAttribute>, i: int)
    requires
        0 <= i < attrs.len(),
        attrs[i].name@ == "character"@,
        forall|j: int| 0 <= j < i ==> (#[trigger] attrs[j]).name@ != "character"@,
    ensures
        char_attr_span(attrs) == Some((attrs[i].position, attrs[i].length)),
    decreases i,
{
    if i > 0 {
        let rest = attrs.drop_first();
        assert(rest[i - 1] == attrs[i]);
        assert forall|j: int| 0 <= j < i - 1 implies (#[trigger] rest[j]).name@ != "character"@ by {
            assert(rest[j] == attrs[j + 1]);
        }
        lemma_char_attr_span_at(rest, i - 1);
    }
}

/// With no attribute named `character`, there is no span.
proof fn lemma_char_attr_span_none(attrs: Seq<YarnMarkupAttribute>)
    requires
        forall|j: int| 0 <= j < attrs.len() ==> (#[trigger] attrs[j]).name@ != "character"@,
    ensures
        char_attr_span(attrs) is None,
    decreases attrs.len(),
{
    if attrs.len() > 0 {
        let rest = attrs.drop_first();
        assert forall|j: int|
            0 <= j < rest.len() implies (#[trigger] rest[j]).name@ != "character"@ by {
            assert(rest[j] == attrs[j + 1]);
        }
        lemma_char_attr_span_none(rest);
    }
}

/// A typed property value carried by a markup attribute. Floating-point
/// properties are carried as their raw 32-bit IEEE bit pattern.
#[derive(Debug, PartialEq)]
pub enum YarnMarkupValue {
    Integer(i64),
    /// The raw bits of a 32-bit IEEE floating-point number.
    Float(u32),
    Str(String),
    Bool(bool),
}

/// One markup attribute of a line: a named span of the line's text, with
/// typed properties. `position` and `length` are byte offsets into the text.
#[derive(Debug)]
pub struct YarnMarkupAttribute {
    pub name: String,
    pub position: usize,
    pub length: usize,
    pub properties: Vec<(String, YarnMarkupValue)>,
}

/// A line of dialogue: its string-table identifier, the resolved text with
/// markers removed, the speaking character's name where one was resolved, and
/// the markup attributes found in it. Immutable once produced; identity is
/// the id. Attribute positions and lengths are byte offsets into the text.
#[derive(Debug)]
pub struct YarnLine {
    pub id: String,
    pub text: String,
    pub character_name: Option<String>,
    pub attributes: Vec<YarnMarkupAttribute>,
}

/// One branch choice of a batch presented to the player. The batch is atomic:
/// exactly one member must be selected, by `id`, before the session can
/// continue. Availability is informational; the controller does not enforce
/// it.
#[derive(Debug)]
pub struct YarnDialogueOption {
    pub id: usize,
    pub line: YarnLine,
    pub destination_node: String,
    pub is_available: bool,
}

/// A script command for the host: a name and its ordered parameters.
#[derive(Debug)]
pub struct YarnCommand {
    pub name: String,
    pub parameters: Vec<ScriptValue>,
}

/// One event of an interpreter pump, in the order the interpreter yielded it.
#[derive(Debug)]
pub enum DialogueEvent {
    Line(YarnLine),
    Options(Vec<YarnDialogueOption>),
    Command(YarnCommand),
    NodeStart(String),
    NodeComplete(String),
    LineHints(Vec<String>),
    DialogueComplete,
}

impl YarnMarkupAttribute {
    /// The attribute's name.
    pub fn get_name(&self) -> (r: &String)
        ensures
            r == &self.name,
    {
        &self.name
    }

    /// The first property carried under `name`, if any.
    pub fn get_property(&self, name: &String) -> (r: Option<&YarnMarkupValue>)
        ensures
            match r {
                Some(v) => exists|i: int|
                    {
                        &&& 0 <= i < self.properties@.len()
                        &&& (#[trigger] self.properties@[i]).0@ == name@
                        &&& v == &self.properties@[i].1
                        &&& forall|j: int| 0 <= j < i ==> self.properties@[j].0@ != name@
                    },
                None => forall|i: int|
                    0 <= i < self.properties@.len() ==> (#[trigger] self.properties@[i]).0@
                        != name@,
            },
    {
        let n = self.properties.len();
        let mut i: usize = 0;
        while i < n
            invariant
                i <= n,
                n == self.properties@.len(),
                forall|j: int| 0 <= j < i ==> (#[trigger] self.properties@[j]).0@ != name@,
            decreases n - i,
        {
            if self.properties[i].0.eq(name) {
                return Some(&self.properties[i].1);
            }
            i = i + 1;
        }
        None
    }

    /// All properties, in order.
    pub fn get_properties(&self) -> (r: &Vec<(String, YarnMarkupValue)>)
        ensures
            r == &self.properties,
    {
        &self.properties
    }
}

impl YarnLine {
    /// The line's identifier in the string table.
    pub fn get_line_id(&self) -> (r: &String)
        ensures
            r == &self.id,
    {
        &self.id
    }

    /// The resolved text, markers removed, character name included.
    pub fn get_raw_text(&self) -> (r: &String)
        ensures
            r == &self.text,
    {
        &self.text
    }

    /// The speaking character's name, where one was resolved.
    pub fn get_character_name(&self) -> (r: &Option<String>)
        ensures
            r == &self.character_name,
    {
        &self.character_name
    }

    /// The text with the span of the attribute named `character` removed: the
    /// line as presented without the speaker's name. A line without that
    /// attribute, or whose text the span does not measure (a span beyond the
    /// text, or one over non-ASCII text, which this library does not cut),
    /// is returned whole.
    pub fn get_line(&self) -> (r: String)
        ensures
            match char_attr_span(self.attributes@) {
                Some(span) => {
                    &&& (string_is_ascii(&self.text) && span.1 <= self.text@.len() && span.0
                        <= self.text@.len() - span.1 && span.0 + span.1 <= self.text@.len())
                        ==> r@ == self.text@.subrange(0, span.0 as int) + self.text@.subrange(
                        (span.0 + span.1) as int,
                        self.text@.len() as int,
                    )
                    &&& !(string_is_ascii(&self.text) && span.1 <= self.text@.len() && span.0
                        <= self.text@.len() - span.1) ==> r@ == self.text@
                },
                None => r@ == self.text@,
            },
    {
        let key = String::from_str("character");
        match self.get_attribute(&key) {
            None => {
                proof {
                    lemma_char_attr_span_none(self.attributes@);
                }
                self.text.clone()
            }
            Some(attribute) => {
                proof {
                    let i = choose|i: int|
                        {
                            &&& 0 <= i < self.attributes@.len()
                            &&& (#[trigger] self.attributes@[i]).name@ == key@
                            &&& attribute == &self.attributes@[i]
                            &&& forall|j: int| 0 <= j < i ==> self.attributes@[j].name@ != key@
                        };
                    lemma_char_attr_span_at(self.attributes@, i);
                }
                let text = self.text.as_str();
                if text.is_ascii() && attribute.length <= text.unicode_len() && attribute.position
                    <= text.unicode_len() - attribute.length {
                    let prefix = text.substring_ascii(0, attribute.position);
                    let suffix = text.substring_ascii(
                        attribute.position + attribute.length,
                        text.unicode_len(),
                    );
                    String::from_str(prefix).concat(suffix)
                } else {
                    self.text.clone()
                }
            }
        }
    }

    /// The substring of the text that `attribute` spans, or nothing when the
    /// span does not measure the text (beyond it, or over non-ASCII text,
    /// which this library does not cut).
    pub fn get_text_for_attribute(&self, attribute: &YarnMarkupAttribute) -> (r: Option<String>)
        ensures
            match r {
                Some(t) => string_is_ascii(&self.text) && attribute.position + attribute.length
                    <= self.text@.len() && t@ == self.text@.subrange(
                    attribute.position as int,
                    (attribute.position + attribute.length) as int,
                ),
                None => !(string_is_ascii(&self.text) && attribute.length <= self.text@.len()
                    && attribute.position <= self.text@.len() - attribute.length),
            },
    {
        let text = self.text.as_str();
        if text.is_ascii() && attribute.length <= text.unicode_len() && attribute.position
            <= text.unicode_len() - attribute.length {
            Some(
                String::from_str(
                    text.substring_ascii(
                        attribute.position,
                        attribute.position + attribute.length,
                    ),
                ),
            )
        } else {
            None
        }
    }

    /// The first attribute carried under `name`, if any.
    pub fn get_attribute(&self, name: &String) -> (r: Option<&YarnMarkupAttribute>)
        ensures
            match r {
                Some(a) => exists|i: int|
                    {
                        &&& 0 <= i < self.attributes@.len()
                        &&& (#[trigger] self.attributes@[i]).name@ == name@
                        &&& a == &self.attributes@[i]
                        &&& forall|j: int| 0 <= j < i ==> self.attributes@[j].name@ != name@
                    },
                None => forall|i: int|
                    0 <= i < self.attributes@.len() ==> (#[trigger] self.attributes@[i]).name@
                        != name@,
            },
    {
        let n = self.attributes.len();
        let mut i: usize = 0;
        while i < n
            invariant
                i <= n,
                n == self.attributes@.len(),
                forall|j: int| 0 <= j < i ==> (#[trigger] self.attributes@[j]).name@ != name@,
            decreases n - i,
        {
            if self.attributes[i].name.eq(name) {
                return Some(&self.attributes[i]);
            }
            i = i + 1;
        }
        None
    }
}

impl YarnDialogueOption {
    /// The identifying number the selection protocol uses.
    pub fn get_id(&self) -> (r: u64)
        ensures
            r == self.id as u64,
    {
        self.id as u64
    }

    /// The line presented for this option.
    pub fn get_line(&self) -> (r: &YarnLine)
        ensures
            r == &self.line,
    {
        &self.line
    }

    /// The node run when this option is selected.
    pub fn get_destination_node(&self) -> (r: &String)
        ensures
            r == &self.destination_node,
    {
        &self.destination_node
    }

    /// Whether the player should be permitted to select this option.
    pub fn is_available(&self) -> (r: bool)
        ensures
            r == self.is_available,
    {
        self.is_available
    }
}

} // verus!
