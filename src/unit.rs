//! Unit identity: a kind tag and a namespaced identifier.
use vstd::prelude::*;
use vstd::string::StringExecFns;

verus! {

/// What sort of unit a name refers to.
#[derive(PartialEq, Eq, Structural, Clone, Copy, Debug, Hash)]
pub enum UnitKind {
    Jig,
    Scenario,
    Test,
    Interface,
    Trigger,
    Logger,
    Internal,
}

/// The lowercase word that names a kind, as used in a unit's full name.
pub open spec fn kind_text(k: UnitKind) -> Seq<char> {
    match k {
        UnitKind::Jig => seq!['j', 'i', 'g'],
        UnitKind::Scenario => seq!['s', 'c', 'e', 'n', 'a', 'r', 'i', 'o'],
        UnitKind::Test => seq!['t', 'e', 's', 't'],
        UnitKind::Interface => seq!['i', 'n', 't', 'e', 'r', 'f', 'a', 'c', 'e'],
        UnitKind::Trigger => seq!['t', 'r', 'i', 'g', 'g', 'e', 'r'],
        UnitKind::Logger => seq!['l', 'o', 'g', 'g', 'e', 'r'],
        UnitKind::Internal => seq!['i', 'n', 't', 'e', 'r', 'n', 'a', 'l'],
    }
}

pub open spec fn ascii_lower(c: char) -> char {
    if 'A' <= c && c <= 'Z' {
        ((c as u32) + 32) as char
    } else {
        c
    }
}

/// `s` spells the lowercase word `w`, ignoring ASCII case.
pub open spec fn same_word(s: Seq<char>, w: Seq<char>) -> bool {
    s.len() == w.len() && forall|i: int| 0 <= i < s.len() ==> ascii_lower(#[trigger] s[i]) == w[i]
}

/// The kind that a kind word names, if any.
pub open spec fn kind_from_text(s: Seq<char>) -> Option<UnitKind> {
    if same_word(s, kind_text(UnitKind::Jig)) {
        Some(UnitKind::Jig)
    } else if same_word(s, kind_text(UnitKind::Scenario)) {
        Some(UnitKind::Scenario)
    } else if same_word(s, kind_text(UnitKind::Test)) {
        Some(UnitKind::Test)
    } else if same_word(s, kind_text(UnitKind::Interface)) {
        Some(UnitKind::Interface)
    } else if same_word(s, kind_text(UnitKind::Trigger)) {
        Some(UnitKind::Trigger)
    } else if same_word(s, kind_text(UnitKind::Logger)) {
        Some(UnitKind::Logger)
    } else if same_word(s, kind_text(UnitKind::Internal)) {
        Some(UnitKind::Internal)
    } else {
        None
    }
}

/// The characters with the Unicode `White_Space` property.
pub open spec fn is_space(c: char) -> bool {
    ('\u{9}' <= c && c <= '\u{d}') || c == ' ' || c == '\u{85}' || c == '\u{a0}' || c
        == '\u{1680}' || ('\u{2000}' <= c && c <= '\u{200a}') || c == '\u{2028}' || c
        == '\u{2029}' || c == '\u{202f}' || c == '\u{205f}' || c == '\u{3000}'
}

fn space(c: char) -> (r: bool)
    ensures
        r == is_space(c),
{
    ('\u{9}' <= c && c <= '\u{d}') || c == ' ' || c == '\u{85}' || c == '\u{a0}' || c
        == '\u{1680}' || ('\u{2000}' <= c && c <= '\u{200a}') || c == '\u{2028}' || c
        == '\u{2029}' || c == '\u{202f}' || c == '\u{205f}' || c == '\u{3000}'
}

/// A unit identifier is non-empty and holds no whitespace.
pub open spec fn valid_id(s: Seq<char>) -> bool {
    s.len() > 0 && forall|i: int| 0 <= i < s.len() ==> !is_space(#[trigger] s[i])
}

fn lower_char(c: char) -> (r: char)
    ensures
        r == ascii_lower(c),
{
    if 'A' <= c && c <= 'Z' {
        ((c as u8) + 32) as char
    } else {
        c
    }
}

fn word_is(s: &str, w: &str) -> (r: bool)
    ensures
        r == same_word(s@, w@),
{
    let n = s.unicode_len();
    if n != w.unicode_len() {
        return false;
    }
    let mut i: usize = 0;
    while i < n
        invariant
            n == s@.len(),
            n == w@.len(),
            i <= n,
            forall|j: int| 0 <= j < i ==> ascii_lower(#[trigger] s@[j]) == w@[j],
        decreases n - i,
    {
        if lower_char(s.get_char(i)) != w.get_char(i) {
            return false;
        }
        i = i + 1;
    }
    true
}

impl UnitKind {
    /// The lowercase word for this kind.
    pub fn as_str(&self) -> (r: &'static str)
        ensures
            r@ == kind_text(*self),
    {
        match self {
            UnitKind::Jig => {
                proof {
                    reveal_strlit("jig");
                }
                "jig"
            },
            UnitKind::Scenario => {
                proof {
                    reveal_strlit("scenario");
                }
                "scenario"
            },
            UnitKind::Test => {
                proof {
                    reveal_strlit("test");
                }
                "test"
            },
            UnitKind::Interface => {
                proof {
                    reveal_strlit("interface");
                }
                "interface"
            },
            UnitKind::Trigger => {
                proof {
                    reveal_strlit("trigger");
                }
                "trigger"
            },
            UnitKind::Logger => {
                proof {
                    reveal_strlit("logger");
                }
                "logger"
            },
            UnitKind::Internal => {
                proof {
                    reveal_strlit("internal");
                }
                "internal"
            },
        }
    }

    /// Parses a kind word, ignoring ASCII case.
    pub fn from_text(s: &str) -> (r: Option<UnitKind>)
        ensures
            r == kind_from_text(s@),
    {
        if word_is(s, UnitKind::Jig.as_str()) {
            Some(UnitKind::Jig)
        } else if word_is(s, UnitKind::Scenario.as_str()) {
            Some(UnitKind::Scenario)
        } else if word_is(s, UnitKind::Test.as_str()) {
            Some(UnitKind::Test)
        } else if word_is(s, UnitKind::Interface.as_str()) {
            Some(UnitKind::Interface)
        } else if word_is(s, UnitKind::Trigger.as_str()) {
            Some(UnitKind::Trigger)
        } else if word_is(s, UnitKind::Logger.as_str()) {
            Some(UnitKind::Logger)
        } else if word_is(s, UnitKind::Internal.as_str()) {
            Some(UnitKind::Internal)
        } else {
            None
        }
    }
}

/// Why a unit name could not be built.
#[derive(PartialEq, Eq, Structural, Clone, Copy, Debug)]
pub enum UnitNameError {
    InvalidKind,
    InvalidId,
}

/// The value a unit name stands for: its identifier's characters and its kind.
pub struct UnitNameView {
    pub id: Seq<char>,
    pub kind: UnitKind,
}

/// A unit's identity. Two names are equal when identifier and kind both match.
#[derive(Eq, Debug, Hash)]
pub struct UnitName {
    pub id: String,
    pub kind: UnitKind,
}

impl View for UnitName {
    type V = UnitNameView;

    open spec fn view(&self) -> UnitNameView {
        UnitNameView { id: self.id@, kind: self.kind }
    }
}

impl PartialEq for UnitName {
    fn eq(&self, o: &UnitName) -> (r: bool) {
        self.kind == o.kind && self.id == o.id
    }
}

impl vstd::std_specs::cmp::PartialEqSpecImpl for UnitName {
    open spec fn obeys_eq_spec() -> bool {
        true
    }

    open spec fn eq_spec(&self, o: &UnitName) -> bool {
        self@ == o@
    }
}

impl Clone for UnitName {
    fn clone(&self) -> (r: UnitName)
        ensures
            r == *self,
    {
        UnitName { id: self.id.clone(), kind: self.kind }
    }
}

impl UnitName {
    /// Builds a name from an identifier and a kind word (case-insensitive).
    pub fn from_str(id: &str, kind: &str) -> (r: Result<UnitName, UnitNameError>)
        ensures
            kind_from_text(kind@) is None ==> r == Err::<UnitName, UnitNameError>(
                UnitNameError::InvalidKind,
            ),
            kind_from_text(kind@) is Some && !valid_id(id@) ==> r == Err::<UnitName, UnitNameError>(
                UnitNameError::InvalidId,
            ),
            kind_from_text(kind@) is Some && valid_id(id@) ==> (r matches Ok(n) && n@ == (
            UnitNameView { id: id@, kind: kind_from_text(kind@)->Some_0 })),
    {
        let k = match UnitKind::from_text(kind) {
            Some(k) => k,
            None => return Err(UnitNameError::InvalidKind),
        };
        let n = id.unicode_len();
        if n == 0 {
            return Err(UnitNameError::InvalidId);
        }
        let mut i: usize = 0;
        while i < n
            invariant
                n == id@.len(),
                i <= n,
                kind_from_text(kind@) == Some(k),
                forall|j: int| 0 <= j < i ==> !is_space(#[trigger] id@[j]),
            decreases n - i,
        {
            let c = id.get_char(i);
            if space(c) {
                return Err(UnitNameError::InvalidId);
            }
            i = i + 1;
        }
        Ok(UnitName { id: String::from_str(id), kind: k })
    }

    /// The stand-in name of kind `Jig` with an empty identifier, used when no jig is current.
    pub fn no_jig() -> (r: UnitName)
        ensures
            r@ == (UnitNameView { id: Seq::empty(), kind: UnitKind::Jig }),
    {
        UnitName { id: String::new(), kind: UnitKind::Jig }
    }

    pub fn id(&self) -> (r: &String)
        ensures
            r@ == self@.id,
    {
        &self.id
    }

    pub fn kind(&self) -> (r: UnitKind)
        ensures
            r == self@.kind,
    {
        self.kind
    }

    /// The full name, `id.kind`.
    pub fn to_string(&self) -> (r: String)
        ensures
            r@ == self@.id + seq!['.'] + kind_text(self@.kind),
    {
        let mut s = self.id.clone();
        proof {
            reveal_strlit(".");
        }
        s.append(".");
        s.append(self.kind.as_str());
        s
    }
}

} // verus!
