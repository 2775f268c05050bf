use vstd::prelude::*;
use vstd::string::StringExecFns;

use crate::dom::attribute::Attribute;

verus! {

/// A node of the element tree the application mirrors to its host: an
/// identity, an optional parent identity, a tag name, text content, named
/// attributes and child elements. The host's identifier supply and the
/// synchronisation of changed nodes live with the caller; every operation
/// here is a pure tree update or query.
#[derive(Debug)]
pub struct Element {
    pub uuid: String,
    pub parent: Option<String>,
    pub name: String,
    pub text: String,
    pub attributes: Vec<Attribute>,
    pub elements: Vec<Element>,
}

/// No two attributes of one element share a name.
pub open spec fn attrs_unique(attrs: Seq<Attribute>) -> bool {
    forall|j: int, k: int|
        0 <= j < k < attrs.len() ==> attrs[j].name@ != attrs[k].name@
}

/// Whether some attribute in the sequence has the given name.
pub open spec fn has_attr_named(attrs: Seq<Attribute>, name: Seq<char>) -> bool {
    exists|j: int| 0 <= j < attrs.len() && attrs[j].name@ == name
}

/// Whether some attribute in the sequence has the given name and the given
/// value.
pub open spec fn has_attr_value(attrs: Seq<Attribute>, name: Seq<char>, value: Seq<char>) -> bool {
    exists|j: int|
        0 <= j < attrs.len() && attrs[j].name@ == name && (attrs[j].value matches Some(v) && v@
            == value)
}

/// The views of an optional borrowed string.
pub open spec fn opt_view(value: Option<&str>) -> Option<Seq<char>> {
    match value {
        Some(v) => Some(v@),
        None => None,
    }
}

/// Whether an optional owned string has the given optional view.
pub open spec fn opt_value_matches(value: Option<String>, expected: Option<Seq<char>>) -> bool {
    match (value, expected) {
        (Some(v), Some(w)) => v@ == w,
        (None, None) => true,
        _ => false,
    }
}

impl Element {
    /// A fresh element: the caller supplies the host-generated identifier.
    pub fn new(name: &str, uuid: String) -> (element: Element)
        ensures
            element.uuid == uuid,
            element.parent is None,
            element.name@ == name@,
            element.text@ == Seq::<char>::empty(),
            element.attributes@ == Seq::<Attribute>::empty(),
            element.elements@ == Seq::<Element>::empty(),
    {
        Element {
            uuid,
            parent: None,
            name: name.to_owned(),
            text: String::new(),
            attributes: Vec::new(),
            elements: Vec::new(),
        }
    }

    /// A placeholder node standing for an existing host element of which only
    /// the identifier is known.
    pub fn from_uuid(uuid: String) -> (element: Element)
        ensures
            element.uuid == uuid,
            element.parent is None,
            element.name@ == "div"@,
            element.text@ == Seq::<char>::empty(),
            element.attributes@ == Seq::<Attribute>::empty(),
            element.elements@ == Seq::<Element>::empty(),
    {
        Element {
            uuid,
            parent: None,
            name: "div".to_owned(),
            text: String::new(),
            attributes: Vec::new(),
            elements: Vec::new(),
        }
    }

    pub fn get_uuid(&self) -> (r: &str)
        ensures
            r@ == self.uuid@,
    {
        self.uuid.as_str()
    }

    pub fn get_name(&self) -> (r: &str)
        ensures
            r@ == self.name@,
    {
        self.name.as_str()
    }

    pub fn get_text(&self) -> (r: &str)
        ensures
            r@ == self.text@,
    {
        self.text.as_str()
    }

    pub fn set_parent(&mut self, uuid: String)
        ensures
            *final(self) == (Element { parent: Some(uuid), ..*old(self) }),
    {
        self.parent = Some(uuid);
    }

    /// Sets the value of the named attribute, adding the attribute when the
    /// element does not carry it yet.
    pub fn set_attribute(&mut self, name: &str, value: Option<&str>)
        requires
            attrs_unique(old(self).attributes@),
        ensures
            final(self).uuid == old(self).uuid,
            final(self).parent == old(self).parent,
            final(self).name == old(self).name,
            final(self).text == old(self).text,
            final(self).elements == old(self).elements,
            attrs_unique(final(self).attributes@),
            has_attr_named(old(self).attributes@, name@) ==> {
                &&& final(self).attributes@.len() == old(self).attributes@.len()
                &&& forall|k: int|
                    0 <= k < old(self).attributes@.len() ==> if old(
                        self,
                    ).attributes@[k].name@ == name@ {
                        final(self).attributes@[k].name@ == name@ && opt_value_matches(
                            final(self).attributes@[k].value,
                            opt_view(value),
                        )
                    } else {
                        final(self).attributes@[k] == old(self).attributes@[k]
                    }
            },
            !has_attr_named(old(self).attributes@, name@) ==> {
                &&& final(self).attributes@.len() == old(self).attributes@.len() + 1
                &&& forall|k: int|
                    0 <= k < old(self).attributes@.len() ==> final(self).attributes@[k] == old(
                        self,
                    ).attributes@[k]
                &&& final(self).attributes@.last().name@ == name@
                &&& opt_value_matches(final(self).attributes@.last().value, opt_view(value))
            },
    {
        let n = self.attributes.len();
        let mut i: usize = 0;
        while i < n
            invariant
                i <= n,
                n == self.attributes@.len(),
                *self == *old(self),
                attrs_unique(self.attributes@),
                forall|k: int| 0 <= k < i ==> self.attributes@[k].name@ != name@,
            decreases n - i,
        {
            let found = str_eq(self.attributes[i].name.as_str(), name);
            if found {
                self.attributes[i] = Attribute::new(name, value);
                proof {
                    assert(has_attr_named(old(self).attributes@, name@));
                    assert(attrs_unique(self.attributes@));
                }
                return ;
            }
            i = i + 1;
        }
        self.attributes.push(Attribute::new(name, value));
        proof {
            assert(!has_attr_named(old(self).attributes@, name@));
            assert(self.attributes@.last().name@ == name@);
            assert(attrs_unique(self.attributes@));
        }
    }

    /// Removes the named attribute; an element without it is left unchanged.
    pub fn remove_attribute(&mut self, name: &str)
        requires
            attrs_unique(old(self).attributes@),
        ensures
            final(self).uuid == old(self).uuid,
            final(self).parent == old(self).parent,
            final(self).name == old(self).name,
            final(self).text == old(self).text,
            final(self).elements == old(self).elements,
            attrs_unique(final(self).attributes@),
            has_attr_named(old(self).attributes@, name@) ==> exists|j: int|
                0 <= j < old(self).attributes@.len() && old(self).attributes@[j].name@ == name@
                    && final(self).attributes@ == old(self).attributes@.remove(j),
            !has_attr_named(old(self).attributes@, name@) ==> final(self).attributes@ == old(
                self,
            ).attributes@,
    {
        let n = self.attributes.len();
        let mut i: usize = 0;
        while i < n
            invariant
                i <= n,
                n == self.attributes@.len(),
                *self == *old(self),
                attrs_unique(self.attributes@),
                forall|k: int| 0 <= k < i ==> self.attributes@[k].name@ != name@,
            decreases n - i,
        {
            let found = str_eq(self.attributes[i].name.as_str(), name);
            if found {
                self.attributes.remove(i);
                proof {
                    assert(has_attr_named(old(self).attributes@, name@));
                    assert(self.attributes@ == old(self).attributes@.remove(i as int));
                    assert forall|j: int, k: int|
                        0 <= j < k < self.attributes@.len() implies self.attributes@[j].name@
                        != self.attributes@[k].name@ by {
                        assert(self.attributes@[j] == if j < i {
                            old(self).attributes@[j]
                        } else {
                            old(self).attributes@[j + 1]
                        });
                        assert(self.attributes@[k] == if k < i {
                            old(self).attributes@[k]
                        } else {
                            old(self).attributes@[k + 1]
                        });
                    }
                }
                return ;
            }
            i = i + 1;
        }
        proof {
            assert(!has_attr_named(old(self).attributes@, name@));
        }
    }
}

/// The first node of the subtree rooted at `e`, in preorder, whose identifier
/// reads `uuid`.
pub open spec fn find_by_uuid(e: Element, uuid: Seq<char>) -> Option<Element>
    decreases e,
{
    if e.uuid@ == uuid {
        Some(e)
    } else {
        find_by_uuid_in(e.elements@, uuid)
    }
}

/// The result of the first child subtree, in order, holding a match.
pub open spec fn find_by_uuid_in(s: Seq<Element>, uuid: Seq<char>) -> Option<Element>
    decreases s,
{
    if s.len() == 0 {
        None
    } else {
        match find_by_uuid(s[0], uuid) {
            Some(e) => Some(e),
            None => find_by_uuid_in(s.drop_first(), uuid),
        }
    }
}

/// The first node of the subtree rooted at `e`, in preorder, whose tag name
/// reads `name`.
pub open spec fn find_by_name(e: Element, name: Seq<char>) -> Option<Element>
    decreases e,
{
    if e.name@ == name {
        Some(e)
    } else {
        find_by_name_in(e.elements@, name)
    }
}

/// The result of the first child subtree, in order, holding a match.
pub open spec fn find_by_name_in(s: Seq<Element>, name: Seq<char>) -> Option<Element>
    decreases s,
{
    if s.len() == 0 {
        None
    } else {
        match find_by_name(s[0], name) {
            Some(e) => Some(e),
            None => find_by_name_in(s.drop_first(), name),
        }
    }
}

/// A lookup by attribute: `e` itself is checked against the requested
/// attribute name, while descendants are checked against their `id`
/// attribute, as the identifier-based lookup does.
pub open spec fn find_by_attribute(e: Element, name: Seq<char>, value: Seq<char>) -> Option<
    Element,
>
    decreases e,
{
    if has_attr_value(e.attributes@, name, value) {
        Some(e)
    } else {
        find_by_id_in(e.elements@, value)
    }
}

/// The result of the first child subtree, in order, holding a node whose `id`
/// attribute reads `value`.
pub open spec fn find_by_id_in(s: Seq<Element>, value: Seq<char>) -> Option<Element>
    decreases s,
{
    if s.len() == 0 {
        None
    } else {
        match find_by_attribute(s[0], "id"@, value) {
            Some(e) => Some(e),
            None => find_by_id_in(s.drop_first(), value),
        }
    }
}

proof fn lemma_find_by_uuid_in_skip(s: Seq<Element>, uuid: Seq<char>, j: int)
    requires
        0 <= j <= s.len(),
        forall|k: int| 0 <= k < j ==> find_by_uuid(#[trigger] s[k], uuid) is None,
    ensures
        find_by_uuid_in(s, uuid) == find_by_uuid_in(s.subrange(j, s.len() as int), uuid),
    decreases j,
{
    if j == 0 {
        assert(s.subrange(0, s.len() as int) =~= s);
    }
    if j > 0 {
        assert(find_by_uuid(s[0], uuid) is None);
        lemma_find_by_uuid_in_skip(s.drop_first(), uuid, j - 1);
        assert(s.drop_first().subrange(j - 1, s.drop_first().len() as int) =~= s.subrange(
            j,
            s.len() as int,
        ));
    }
}

proof fn lemma_find_by_name_in_skip(s: Seq<Element>, name: Seq<char>, j: int)
    requires
        0 <= j <= s.len(),
        forall|k: int| 0 <= k < j ==> find_by_name(#[trigger] s[k], name) is None,
    ensures
        find_by_name_in(s, name) == find_by_name_in(s.subrange(j, s.len() as int), name),
    decreases j,
{
    if j == 0 {
        assert(s.subrange(0, s.len() as int) =~= s);
    }
    if j > 0 {
        assert(find_by_name(s[0], name) is None);
        lemma_find_by_name_in_skip(s.drop_first(), name, j - 1);
        assert(s.drop_first().subrange(j - 1, s.drop_first().len() as int) =~= s.subrange(
            j,
            s.len() as int,
        ));
    }
}

proof fn lemma_find_by_id_in_skip(s: Seq<Element>, value: Seq<char>, j: int)
    requires
        0 <= j <= s.len(),
        forall|k: int| 0 <= k < j ==> find_by_attribute(#[trigger] s[k], "id"@, value) is None,
    ensures
        find_by_id_in(s, value) == find_by_id_in(s.subrange(j, s.len() as int), value),
    decreases j,
{
    if j == 0 {
        assert(s.subrange(0, s.len() as int) =~= s);
    }
    if j > 0 {
        assert(find_by_attribute(s[0], "id"@, value) is None);
        lemma_find_by_id_in_skip(s.drop_first(), value, j - 1);
        assert(s.drop_first().subrange(j - 1, s.drop_first().len() as int) =~= s.subrange(
            j,
            s.len() as int,
        ));
    }
}

impl Element {
    /// Finds the element with the given identifier in this subtree, in
    /// preorder.
    pub fn get_element_by_uuid<'a>(&'a self, uuid: &str) -> (res: Option<&'a Element>)
        ensures
            res matches Some(e) ==> find_by_uuid(*self, uuid@) == Some(*e),
            res is None ==> find_by_uuid(*self, uuid@) is None,
        decreases *self,
    {
        if str_eq(self.get_uuid(), uuid) {
            return Some(self);
        }
        let n = self.elements.len();
        let mut j: usize = 0;
        while j < n
            invariant
                j <= n,
                n == self.elements@.len(),
                self.uuid@ != uuid@,
                forall|k: int|
                    0 <= k < j ==> find_by_uuid(#[trigger] self.elements@[k], uuid@) is None,
            decreases n - j,
        {
            proof {
                assert(decreases_to!(*self => self.elements@[j as int]));
            }
            let found = self.elements[j].get_element_by_uuid(uuid);
            if found.is_some() {
                proof {
                    lemma_find_by_uuid_in_skip(self.elements@, uuid@, j as int);
                    assert(self.elements@.subrange(j as int, self.elements@.len() as int)[0]
                        == self.elements@[j as int]);
                }
                return found;
            }
            j = j + 1;
        }
        proof {
            lemma_find_by_uuid_in_skip(self.elements@, uuid@, n as int);
        }
        None
    }

    /// Finds the first element with the given tag name in this subtree, in
    /// preorder.
    pub fn get_element_by_name<'a>(&'a self, name: &str) -> (res: Option<&'a Element>)
        ensures
            res matches Some(e) ==> find_by_name(*self, name@) == Some(*e),
            res is None ==> find_by_name(*self, name@) is None,
        decreases *self,
    {
        if str_eq(self.get_name(), name) {
            return Some(self);
        }
        let n = self.elements.len();
        let mut j: usize = 0;
        while j < n
            invariant
                j <= n,
                n == self.elements@.len(),
                self.name@ != name@,
                forall|k: int|
                    0 <= k < j ==> find_by_name(#[trigger] self.elements@[k], name@) is None,
            decreases n - j,
        {
            proof {
                assert(decreases_to!(*self => self.elements@[j as int]));
            }
            let found = self.elements[j].get_element_by_name(name);
            if found.is_some() {
                proof {
                    lemma_find_by_name_in_skip(self.elements@, name@, j as int);
                    assert(self.elements@.subrange(j as int, self.elements@.len() as int)[0]
                        == self.elements@[j as int]);
                }
                return found;
            }
            j = j + 1;
        }
        proof {
            lemma_find_by_name_in_skip(self.elements@, name@, n as int);
        }
        None
    }

    /// Finds an element by attribute: this element is checked against the
    /// requested attribute, descendants against their `id` attribute.
    pub fn get_element_by_attribute<'a>(&'a self, name: &str, value: &str) -> (res: Option<
        &'a Element,
    >)
        ensures
            res matches Some(e) ==> find_by_attribute(*self, name@, value@) == Some(*e),
            res is None ==> find_by_attribute(*self, name@, value@) is None,
        decreases *self, 1int,
    {
        let mut i: usize = 0;
        let an = self.attributes.len();
        while i < an
            invariant
                i <= an,
                an == self.attributes@.len(),
                forall|k: int|
                    0 <= k < i ==> !(self.attributes@[k].name@ == name@
                        && (#[trigger] self.attributes@[k].value matches Some(v) && v@ == value@)),
            decreases an - i,
        {
            let attr = &self.attributes[i];
            if str_eq(attr.name.as_str(), name) {
                if let Some(v) = &attr.value {
                    if str_eq(v.as_str(), value) {
                        proof {
                            assert(has_attr_value(self.attributes@, name@, value@));
                        }
                        return Some(self);
                    }
                }
            }
            i = i + 1;
        }
        proof {
            assert(!has_attr_value(self.attributes@, name@, value@));
        }
        let n = self.elements.len();
        let mut j: usize = 0;
        while j < n
            invariant
                j <= n,
                n == self.elements@.len(),
                !has_attr_value(self.attributes@, name@, value@),
                forall|k: int|
                    0 <= k < j ==> find_by_attribute(#[trigger] self.elements@[k], "id"@, value@)
                        is None,
            decreases n - j,
        {
            proof {
                assert(decreases_to!(*self, 1int => self.elements@[j as int], 1int));
            }
            let found = self.elements[j].get_element_by_id(value);
            if found.is_some() {
                proof {
                    lemma_find_by_id_in_skip(self.elements@, value@, j as int);
                    assert(self.elements@.subrange(j as int, self.elements@.len() as int)[0]
                        == self.elements@[j as int]);
                }
                return found;
            }
            j = j + 1;
        }
        proof {
            lemma_find_by_id_in_skip(self.elements@, value@, n as int);
        }
        None
    }

    /// Finds an element whose `id` attribute reads `id`.
    pub fn get_element_by_id<'a>(&'a self, id: &str) -> (res: Option<&'a Element>)
        ensures
            res matches Some(e) ==> find_by_attribute(*self, "id"@, id@) == Some(*e),
            res is None ==> find_by_attribute(*self, "id"@, id@) is None,
        decreases *self, 2int,
    {
        let res = self.get_element_by_attribute("id", id);
        proof {
            reveal_strlit("id");
        }
        res
    }
}

/// Whether `e1` is `e0` with its text content set to `text` and everything
/// else unchanged.
pub open spec fn same_but_text(e0: Element, e1: Element, text: Seq<char>) -> bool {
    &&& e1.uuid == e0.uuid
    &&& e1.parent == e0.parent
    &&& e1.name == e0.name
    &&& e1.text@ == text
    &&& e1.attributes == e0.attributes
    &&& e1.elements == e0.elements
}

/// Whether `e1` is `e0` with the text of its first preorder node named `name`
/// set to `text` and everything else unchanged.
pub open spec fn text_set_first_named(e0: Element, e1: Element, name: Seq<char>, text: Seq<char>) -> bool
    decreases e0,
{
    if e0.name@ == name {
        same_but_text(e0, e1, text)
    } else {
        &&& e1.uuid == e0.uuid
        &&& e1.parent == e0.parent
        &&& e1.name == e0.name
        &&& e1.text == e0.text
        &&& e1.attributes == e0.attributes
        &&& text_set_in_children(e0.elements@, e1.elements@, name, text)
    }
}

/// Whether `s1` is `s0` with the text update applied inside the first child
/// subtree that holds a node named `name`, all other children unchanged.
pub open spec fn text_set_in_children(
    s0: Seq<Element>,
    s1: Seq<Element>,
    name: Seq<char>,
    text: Seq<char>,
) -> bool
    decreases s0,
{
    if s0.len() == 0 {
        s1 == s0
    } else if find_by_name(s0[0], name) is Some {
        &&& s1.len() == s0.len()
        &&& forall|k: int| 1 <= k < s0.len() ==> s1[k] == s0[k]
        &&& text_set_first_named(s0[0], s1[0], name, text)
    } else {
        &&& s1.len() == s0.len()
        &&& s1[0] == s0[0]
        &&& text_set_in_children(s0.drop_first(), s1.drop_first(), name, text)
    }
}

proof fn lemma_text_set_at(s0: Seq<Element>, j: int, c: Element, name: Seq<char>, text: Seq<char>)
    requires
        0 <= j < s0.len(),
        forall|k: int| 0 <= k < j ==> find_by_name(#[trigger] s0[k], name) is None,
        find_by_name(s0[j], name) is Some,
        text_set_first_named(s0[j], c, name, text),
    ensures
        text_set_in_children(s0, s0.update(j, c), name, text),
    decreases j,
{
    let s1 = s0.update(j, c);
    if j == 0 {
        assert(s1[0] == c);
        assert(forall|k: int| 1 <= k < s0.len() ==> s1[k] == s0[k]);
    } else {
        assert(find_by_name(s0[0], name) is None);
        assert(s1[0] == s0[0]);
        lemma_text_set_at(s0.drop_first(), j - 1, c, name, text);
        assert(s0.drop_first().update(j - 1, c) =~= s1.drop_first());
    }
}

impl Element {
    /// Adds a fresh child element under the host-generated identifier and
    /// returns it for further updates.
    pub fn add_element<'a>(&'a mut self, name: &str, uuid: String) -> (ret: &'a mut Element)
        ensures
            ret.uuid == uuid,
            ret.parent == Some(old(self).uuid),
            ret.name@ == name@,
            ret.text@ == Seq::<char>::empty(),
            ret.attributes@ == Seq::<Attribute>::empty(),
            ret.elements@ == Seq::<Element>::empty(),
            final(self).uuid == old(self).uuid,
            final(self).parent == old(self).parent,
            final(self).name == old(self).name,
            final(self).text == old(self).text,
            final(self).attributes == old(self).attributes,
            final(self).elements@ == old(self).elements@.push(*final(ret)),
    {
        let mut element = Element::new(name, uuid);
        element.set_parent(self.uuid.clone());
        self.elements.push(element);
        let idx = self.elements.len() - 1;
        &mut self.elements[idx]
    }

    /// Adds a fresh child element to the given root. The root is the caller's:
    /// there is no hidden process-wide tree.
    pub fn create<'a>(root: &'a mut Element, name: &str, uuid: String) -> (ret: &'a mut Element)
        ensures
            ret.uuid == uuid,
            ret.parent == Some(old(root).uuid),
            ret.name@ == name@,
            ret.text@ == Seq::<char>::empty(),
            ret.attributes@ == Seq::<Attribute>::empty(),
            ret.elements@ == Seq::<Element>::empty(),
            final(root).uuid == old(root).uuid,
            final(root).parent == old(root).parent,
            final(root).name == old(root).name,
            final(root).text == old(root).text,
            final(root).attributes == old(root).attributes,
            final(root).elements@ == old(root).elements@.push(*final(ret)),
    {
        root.add_element(name, uuid)
    }

    /// Appends a child text node holding `text`, under the host-generated
    /// identifier.
    pub fn add_text(&mut self, text: &str, uuid: String)
        ensures
            final(self).uuid == old(self).uuid,
            final(self).parent == old(self).parent,
            final(self).name == old(self).name,
            final(self).text == old(self).text,
            final(self).attributes == old(self).attributes,
            final(self).elements@.len() == old(self).elements@.len() + 1,
            final(self).elements@.drop_last() == old(self).elements@,
            ({
                let c = final(self).elements@.last();
                &&& c.uuid == uuid
                &&& c.parent == Some(old(self).uuid)
                &&& c.name@ == "text"@
                &&& c.text@ == text@
                &&& c.attributes@ == Seq::<Attribute>::empty()
                &&& c.elements@ == Seq::<Element>::empty()
            }),
    {
        let mut element = Element::new("text", uuid);
        element.set_parent(self.uuid.clone());
        element.text = text.to_owned();
        self.elements.push(element);
        proof {
            assert(self.elements@.drop_last() =~= old(self).elements@);
        }
    }

    /// Sets the text of the first node named `text` in this subtree.
    fn set_text_named(&mut self, text: &str)
        requires
            find_by_name(*old(self), "text"@) is Some,
        ensures
            text_set_first_named(*old(self), *final(self), "text"@, text@),
        decreases *old(self),
    {
        if str_eq(self.name.as_str(), "text") {
            self.text = text.to_owned();
            return ;
        }
        let n = self.elements.len();
        let mut j: usize = 0;
        while j < n
            invariant
                j <= n,
                n == self.elements@.len(),
                self.name@ != "text"@,
                find_by_name(*self, "text"@) is Some,
                forall|k: int|
                    0 <= k < j ==> find_by_name(#[trigger] self.elements@[k], "text"@) is None,
            ensures
                j <= n,
                n == self.elements@.len(),
                self.name@ != "text"@,
                find_by_name(*self, "text"@) is Some,
                forall|k: int|
                    0 <= k < j ==> find_by_name(#[trigger] self.elements@[k], "text"@) is None,
                j < n ==> find_by_name(self.elements@[j as int], "text"@) is Some,
            decreases n - j,
        {
            let found = self.elements[j].get_element_by_name("text");
            if found.is_some() {
                break ;
            }
            j = j + 1;
        }
        proof {
            if j == n {
                lemma_find_by_name_in_skip(self.elements@, "text"@, n as int);
                assert(find_by_name_in(self.elements@, "text"@) is None);
                assert(false);
            }
            assert(decreases_to!(*old(self) => old(self).elements@[j as int]));
        }
        self.elements[j].set_text_named(text);
        proof {
            lemma_text_set_at(
                old(self).elements@,
                j as int,
                self.elements@[j as int],
                "text"@,
                text@,
            );
            assert(self.elements@ =~= old(self).elements@.update(
                j as int,
                self.elements@[j as int],
            ));
        }
    }

    /// Sets this element's text. A node named `text` carries the text itself;
    /// any other element delegates to the first such node in its subtree, or
    /// grows a fresh one (under the host-generated identifier) when none
    /// exists yet.
    pub fn set_text(&mut self, text: &str, uuid: String)
        ensures
            old(self).name@ == "text"@ ==> same_but_text(*old(self), *final(self), text@),
            old(self).name@ != "text"@ && find_by_name_in(old(self).elements@, "text"@) is Some
                ==> {
                &&& final(self).uuid == old(self).uuid
                &&& final(self).parent == old(self).parent
                &&& final(self).name == old(self).name
                &&& final(self).text == old(self).text
                &&& final(self).attributes == old(self).attributes
                &&& text_set_in_children(
                    old(self).elements@,
                    final(self).elements@,
                    "text"@,
                    text@,
                )
            },
            old(self).name@ != "text"@ && find_by_name_in(old(self).elements@, "text"@) is None
                ==> {
                &&& final(self).uuid == old(self).uuid
                &&& final(self).parent == old(self).parent
                &&& final(self).name == old(self).name
                &&& final(self).text == old(self).text
                &&& final(self).attributes == old(self).attributes
                &&& final(self).elements@.len() == old(self).elements@.len() + 1
                &&& final(self).elements@.drop_last() == old(self).elements@
                &&& ({
                    let c = final(self).elements@.last();
                    &&& c.uuid == uuid
                    &&& c.parent == Some(old(self).uuid)
                    &&& c.name@ == "text"@
                    &&& c.text@ == text@
                    &&& c.attributes@ == Seq::<Attribute>::empty()
                    &&& c.elements@ == Seq::<Element>::empty()
                })
            },
    {
        if str_eq(self.name.as_str(), "text") {
            self.text = text.to_owned();
            return ;
        }
        let existing_text = self.get_element_by_name("text").is_some();
        if existing_text {
            self.set_text_named(text);
        } else {
            self.add_text(text, uuid);
        }
    }

    /// Builds the event subscription notice for the host: the element's
    /// identifier, the listener's identifier and the event name, as a JSON
    /// object. Dispatching events to the listener is the caller's concern.
    pub fn add_event_listener(&mut self, event: &str, event_uuid: String) -> (payload: String)
        ensures
            *final(self) == *old(self),
            payload@ == "{\"element_uuid\":\""@ + old(self).uuid@ + "\",\"event_uuid\":\""@
                + event_uuid@ + "\",\"event\":\""@ + event@ + "\"}"@,
    {
        let mut data = String::new();
        data.append("{\"element_uuid\":\"");
        data.append(self.uuid.as_str());
        data.append("\",\"event_uuid\":\"");
        data.append(event_uuid.as_str());
        data.append("\",\"event\":\"");
        data.append(event);
        data.append("\"}");
        data
    }
}

/// Relies on str's equality: two string slices compare equal exactly when
/// their character sequences are equal.
#[verifier::external_body]
fn str_eq(a: &str, b: &str) -> (r: bool)
    ensures
        r == (a@ == b@),
{
    a == b
}

} // verus!
