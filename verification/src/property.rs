//! Looking up the properties that a modeset request assigns.
use crate::error::{Error, ErrorKind};
use crate::text;
use vstd::prelude::*;

verus! {

/// A property of a connector, CRTC or plane.
#[derive(Debug)]
pub struct PropertyInfo {
    pub handle: u32,
    pub name: String,
    /// The value that the object has for it.
    pub value: u64,
}

/// The first property of this name.
pub open spec fn lookup(props: Seq<PropertyInfo>, name: Seq<char>) -> Option<PropertyInfo>
    decreases props.len(),
{
    if props.len() == 0 {
        None
    } else if props[0].name@ == name {
        Some(props[0])
    } else {
        lookup(props.drop_first(), name)
    }
}

fn find_named(props: &Vec<PropertyInfo>, name: &str) -> (r: Option<usize>)
    ensures
        match r {
            Some(i) => i < props@.len() && lookup(props@, name@) == Some(props@[i as int]),
            None => lookup(props@, name@) is None,
        },
{
    let mut i: usize = 0;
    assert(props@.skip(0) =~= props@);
    while i < props.len()
        invariant
            i <= props.len(),
            lookup(props@, name@) == lookup(props@.skip(i as int), name@),
        decreases props.len() - i,
    {
        let ghost rest = props@.skip(i as int);
        assert(rest[0] == props@[i as int]);
        assert(rest.drop_first() =~= props@.skip(i + 1));
        if text::same_text(props[i].name.as_str(), name) {
            return Some(i);
        }
        i += 1;
    }
    None
}

/// The value of a plane's first `type` property.
pub open spec fn spec_plane_type_value(props: Seq<PropertyInfo>) -> Option<u64> {
    match lookup(props, "type"@) {
        Some(p) => Some(p.value),
        None => None,
    }
}

/// The value of a plane's `type` property.
pub fn plane_type_value(props: &Vec<PropertyInfo>) -> (r: Option<u64>)
    ensures
        r == (match lookup(props@, "type"@) {
            Some(p) => Some(p.value),
            None => None,
        }),
        r == spec_plane_type_value(props@),
{
    match find_named(props, "type") {
        Some(i) => Some(props[i].value),
        None => None,
    }
}

/// The properties that requests assign.
#[derive(Clone, Copy, PartialEq, Eq, Structural, Debug)]
pub enum PropName {
    CrtcId,
    FbId,
    ModeId,
    Active,
    SrcX,
    SrcY,
    SrcW,
    SrcH,
    CrtcX,
    CrtcY,
    CrtcW,
    CrtcH,
    Zpos,
}

impl PropName {
    pub open spec fn spec_text(self) -> Seq<char> {
        match self {
            PropName::CrtcId => "CRTC_ID"@,
            PropName::FbId => "FB_ID"@,
            PropName::ModeId => "MODE_ID"@,
            PropName::Active => "ACTIVE"@,
            PropName::SrcX => "SRC_X"@,
            PropName::SrcY => "SRC_Y"@,
            PropName::SrcW => "SRC_W"@,
            PropName::SrcH => "SRC_H"@,
            PropName::CrtcX => "CRTC_X"@,
            PropName::CrtcY => "CRTC_Y"@,
            PropName::CrtcW => "CRTC_W"@,
            PropName::CrtcH => "CRTC_H"@,
            PropName::Zpos => "ZPOS"@,
        }
    }

    /// The name as the kernel spells it.
    pub fn text(self) -> (r: &'static str)
        ensures
            r@ == self.spec_text(),
    {
        match self {
            PropName::CrtcId => "CRTC_ID",
            PropName::FbId => "FB_ID",
            PropName::ModeId => "MODE_ID",
            PropName::Active => "ACTIVE",
            PropName::SrcX => "SRC_X",
            PropName::SrcY => "SRC_Y",
            PropName::SrcW => "SRC_W",
            PropName::SrcH => "SRC_H",
            PropName::CrtcX => "CRTC_X",
            PropName::CrtcY => "CRTC_Y",
            PropName::CrtcW => "CRTC_W",
            PropName::CrtcH => "CRTC_H",
            PropName::Zpos => "ZPOS",
        }
    }
}

/// Handle of the first property of this name, if the object has it.
pub open spec fn prop_handle(props: Seq<PropertyInfo>, name: PropName) -> Option<u32> {
    match lookup(props, name.spec_text()) {
        Some(p) => Some(p.handle),
        None => None,
    }
}

/// Looks up a property handle by name on an object.
pub fn find_prop(props: &Vec<PropertyInfo>, name: PropName) -> (r: Result<u32, Error>)
    ensures
        match r {
            Ok(handle) => prop_handle(props@, name) == Some(handle),
            Err(e) => prop_handle(props@, name) is None && e.says(
                ErrorKind::NotFound,
                "property "@ + name.spec_text() + " not found"@,
            ),
        },
{
    match find_named(props, name.text()) {
        Some(i) => Ok(props[i].handle),
        None => {
            let start = text::join("property ", name.text());
            let message = text::join(start.as_str(), " not found");
            Err(Error::new(ErrorKind::NotFound, message.as_str()))
        },
    }
}

/// The objects that a request assigns properties of.
#[derive(Clone, Copy, PartialEq, Eq, Structural, Debug)]
pub enum Object {
    Connector,
    Crtc,
    Plane,
}

/// The properties that the connector, the CRTC and the plane have.
#[derive(Debug)]
pub struct ObjectProps {
    pub connector: Vec<PropertyInfo>,
    pub crtc: Vec<PropertyInfo>,
    pub plane: Vec<PropertyInfo>,
}

impl ObjectProps {
    pub open spec fn of(self, object: Object) -> Seq<PropertyInfo> {
        match object {
            Object::Connector => self.connector@,
            Object::Crtc => self.crtc@,
            Object::Plane => self.plane@,
        }
    }

    /// Handle of a property of one of the objects.
    pub open spec fn handle(self, object: Object, name: PropName) -> Option<u32> {
        prop_handle(self.of(object), name)
    }

    /// Of the wanted properties, `k` is the first that is missing.
    pub open spec fn first_missing(self, wanted: Seq<(Object, PropName)>, k: int) -> bool {
        &&& 0 <= k < wanted.len()
        &&& self.handle(wanted[k].0, wanted[k].1) is None
        &&& forall|j: int|
            0 <= j < k ==> self.handle((#[trigger] wanted[j]).0, wanted[j].1) is Some
    }

    /// `e` reports the first wanted property that is missing.
    pub open spec fn reports_missing(self, wanted: Seq<(Object, PropName)>, e: Error) -> bool {
        exists|k: int| #[trigger]
            self.first_missing(wanted, k) && e.says(
                ErrorKind::NotFound,
                "property "@ + wanted[k].1.spec_text() + " not found"@,
            )
    }

    pub fn find(&self, object: Object, name: PropName) -> (r: Result<u32, Error>)
        ensures
            match r {
                Ok(handle) => self.handle(object, name) == Some(handle),
                Err(e) => self.handle(object, name) is None && e.says(
                    ErrorKind::NotFound,
                    "property "@ + name.spec_text() + " not found"@,
                ),
            },
    {
        match object {
            Object::Connector => find_prop(&self.connector, name),
            Object::Crtc => find_prop(&self.crtc, name),
            Object::Plane => find_prop(&self.plane, name),
        }
    }

    /// Looks the wanted properties up in turn.
    fn find_all(&self, wanted: &Vec<(Object, PropName)>) -> (r: Result<Vec<u32>, Error>)
        ensures
            match r {
                Ok(handles) => handles@.len() == wanted@.len() && forall|i: int|
                    0 <= i < wanted@.len() ==> self.handle(
                        (#[trigger] wanted@[i]).0,
                        wanted@[i].1,
                    ) == Some(handles@[i]),
                Err(e) => self.reports_missing(wanted@, e),
            },
    {
        let mut handles: Vec<u32> = Vec::new();
        let mut i: usize = 0;
        while i < wanted.len()
            invariant
                i <= wanted.len(),
                handles@.len() == i,
                forall|j: int|
                    0 <= j < i ==> self.handle((#[trigger] wanted@[j]).0, wanted@[j].1) == Some(
                        handles@[j],
                    ),
            decreases wanted.len() - i,
        {
            let (object, name) = wanted[i];
            match self.find(object, name) {
                Ok(handle) => {
                    handles.push(handle);
                },
                Err(e) => {
                    assert(self.first_missing(wanted@, i as int));
                    return Err(e);
                },
            }
            i += 1;
        }
        Ok(handles)
    }

    /// The properties are those that the objects have under these names.
    pub open spec fn resolves(self, props: DisplayProps) -> bool {
        &&& self.handle(Object::Connector, PropName::CrtcId) == Some(props.conn_crtc)
        &&& self.handle(Object::Crtc, PropName::ModeId) == Some(props.mode)
        &&& self.handle(Object::Crtc, PropName::Active) == Some(props.active)
        &&& self.handle(Object::Plane, PropName::CrtcId) == Some(props.crtc)
        &&& self.handle(Object::Plane, PropName::FbId) == Some(props.fb)
        &&& self.handle(Object::Plane, PropName::SrcX) == Some(props.src_x)
        &&& self.handle(Object::Plane, PropName::SrcY) == Some(props.src_y)
        &&& self.handle(Object::Plane, PropName::SrcW) == Some(props.src_w)
        &&& self.handle(Object::Plane, PropName::SrcH) == Some(props.src_h)
        &&& self.handle(Object::Plane, PropName::CrtcX) == Some(props.crtc_x)
        &&& self.handle(Object::Plane, PropName::CrtcY) == Some(props.crtc_y)
        &&& self.handle(Object::Plane, PropName::CrtcW) == Some(props.crtc_w)
        &&& self.handle(Object::Plane, PropName::CrtcH) == Some(props.crtc_h)
        &&& props.zpos == self.handle(Object::Plane, PropName::Zpos)
    }

    /// Finds what a display that imports frames needs. Only `ZPOS` may be missing.
    pub fn find_display_props(&self) -> (r: Result<DisplayProps, Error>)
        ensures
            match r {
                Ok(props) => self.resolves(props),
                Err(e) => self.reports_missing(display_order(), e),
            },
    {
        let wanted = display_wanted();
        match self.find_all(&wanted) {
            Ok(h) => {
                let zpos = match self.find(Object::Plane, PropName::Zpos) {
                    Ok(handle) => Some(handle),
                    Err(_) => None,
                };
                assert(self.handle(wanted@[0].0, wanted@[0].1) == Some(h@[0]));
                assert(self.handle(wanted@[1].0, wanted@[1].1) == Some(h@[1]));
                assert(self.handle(wanted@[2].0, wanted@[2].1) == Some(h@[2]));
                assert(self.handle(wanted@[3].0, wanted@[3].1) == Some(h@[3]));
                assert(self.handle(wanted@[4].0, wanted@[4].1) == Some(h@[4]));
                assert(self.handle(wanted@[5].0, wanted@[5].1) == Some(h@[5]));
                assert(self.handle(wanted@[6].0, wanted@[6].1) == Some(h@[6]));
                assert(self.handle(wanted@[7].0, wanted@[7].1) == Some(h@[7]));
                assert(self.handle(wanted@[8].0, wanted@[8].1) == Some(h@[8]));
                assert(self.handle(wanted@[9].0, wanted@[9].1) == Some(h@[9]));
                assert(self.handle(wanted@[10].0, wanted@[10].1) == Some(h@[10]));
                assert(self.handle(wanted@[11].0, wanted@[11].1) == Some(h@[11]));
                assert(self.handle(wanted@[12].0, wanted@[12].1) == Some(h@[12]));
                Ok(
                    DisplayProps {
                        fb: h[0],
                        crtc: h[1],
                        conn_crtc: h[2],
                        mode: h[3],
                        active: h[4],
                        src_x: h[5],
                        src_y: h[6],
                        src_w: h[7],
                        src_h: h[8],
                        crtc_x: h[9],
                        crtc_y: h[10],
                        crtc_w: h[11],
                        crtc_h: h[12],
                        zpos,
                    },
                )
            },
            Err(e) => Err(e),
        }
    }

    /// Finds what a modeset with a buffer of its own needs.
    pub fn find_modeset_props(&self) -> (r: Result<DisplayProps, Error>)
        ensures
            match r {
                Ok(props) => self.resolves(props),
                Err(e) => self.reports_missing(modeset_order(), e),
            },
    {
        let wanted = modeset_wanted();
        match self.find_all(&wanted) {
            Ok(h) => {
                assert forall|k: int| 0 <= k < display_order().len() implies self.handle(
                    (#[trigger] display_order()[k]).0,
                    display_order()[k].1,
                ) is Some by {
                    let at: int = if k == 0 {
                        4
                    } else if k == 1 {
                        3
                    } else if k == 2 {
                        0
                    } else if k == 3 {
                        1
                    } else if k == 4 {
                        2
                    } else {
                        k
                    };
                    assert(wanted@[at] == display_order()[k]);
                }
                match self.find_display_props() {
                    Ok(props) => Ok(props),
                    Err(e) => {
                        proof {
                            let k = choose|k: int| #[trigger]
                                self.first_missing(display_order(), k) && e.says(
                                    ErrorKind::NotFound,
                                    "property "@ + display_order()[k].1.spec_text()
                                        + " not found"@,
                                );
                            assert(self.handle(display_order()[k].0, display_order()[k].1) is None);
                        }
                        Err(e)
                    },
                }
            },
            Err(e) => Err(e),
        }
    }
}

/// The order in which a display that imports frames looks its properties up.
pub open spec fn display_order() -> Seq<(Object, PropName)> {
    seq![
        (Object::Plane, PropName::FbId),
        (Object::Plane, PropName::CrtcId),
        (Object::Connector, PropName::CrtcId),
        (Object::Crtc, PropName::ModeId),
        (Object::Crtc, PropName::Active),
        (Object::Plane, PropName::SrcX),
        (Object::Plane, PropName::SrcY),
        (Object::Plane, PropName::SrcW),
        (Object::Plane, PropName::SrcH),
        (Object::Plane, PropName::CrtcX),
        (Object::Plane, PropName::CrtcY),
        (Object::Plane, PropName::CrtcW),
        (Object::Plane, PropName::CrtcH),
    ]
}

/// The order in which a modeset with a buffer of its own looks its properties up.
pub open spec fn modeset_order() -> Seq<(Object, PropName)> {
    seq![
        (Object::Connector, PropName::CrtcId),
        (Object::Crtc, PropName::ModeId),
        (Object::Crtc, PropName::Active),
        (Object::Plane, PropName::CrtcId),
        (Object::Plane, PropName::FbId),
        (Object::Plane, PropName::SrcX),
        (Object::Plane, PropName::SrcY),
        (Object::Plane, PropName::SrcW),
        (Object::Plane, PropName::SrcH),
        (Object::Plane, PropName::CrtcX),
        (Object::Plane, PropName::CrtcY),
        (Object::Plane, PropName::CrtcW),
        (Object::Plane, PropName::CrtcH),
    ]
}

/// The properties that a display that imports frames needs, in the order it looks them up.
pub fn display_wanted() -> (r: Vec<(Object, PropName)>)
    ensures
        r@ == display_order(),
{
    let wanted = vec![
        (Object::Plane, PropName::FbId),
        (Object::Plane, PropName::CrtcId),
        (Object::Connector, PropName::CrtcId),
        (Object::Crtc, PropName::ModeId),
        (Object::Crtc, PropName::Active),
        (Object::Plane, PropName::SrcX),
        (Object::Plane, PropName::SrcY),
        (Object::Plane, PropName::SrcW),
        (Object::Plane, PropName::SrcH),
        (Object::Plane, PropName::CrtcX),
        (Object::Plane, PropName::CrtcY),
        (Object::Plane, PropName::CrtcW),
        (Object::Plane, PropName::CrtcH),
    ];
    assert(wanted@ =~= display_order());
    wanted
}

/// The properties that a modeset with a buffer of its own needs, in the order it looks them up.
pub fn modeset_wanted() -> (r: Vec<(Object, PropName)>)
    ensures
        r@ == modeset_order(),
{
    let wanted = vec![
        (Object::Connector, PropName::CrtcId),
        (Object::Crtc, PropName::ModeId),
        (Object::Crtc, PropName::Active),
        (Object::Plane, PropName::CrtcId),
        (Object::Plane, PropName::FbId),
        (Object::Plane, PropName::SrcX),
        (Object::Plane, PropName::SrcY),
        (Object::Plane, PropName::SrcW),
        (Object::Plane, PropName::SrcH),
        (Object::Plane, PropName::CrtcX),
        (Object::Plane, PropName::CrtcY),
        (Object::Plane, PropName::CrtcW),
        (Object::Plane, PropName::CrtcH),
    ];
    assert(wanted@ =~= modeset_order());
    wanted
}

/// Handles of the properties that requests assign.
#[derive(Clone, Copy, PartialEq, Eq, Structural, Debug)]
pub struct DisplayProps {
    /// `CRTC_ID` of the connector.
    pub conn_crtc: u32,
    pub mode: u32,
    pub active: u32,
    /// `CRTC_ID` of the plane.
    pub crtc: u32,
    pub fb: u32,
    pub src_x: u32,
    pub src_y: u32,
    pub src_w: u32,
    pub src_h: u32,
    pub crtc_x: u32,
    pub crtc_y: u32,
    pub crtc_w: u32,
    pub crtc_h: u32,
    pub zpos: Option<u32>,
}

/// Two sets of handles found on the same objects are the same.
pub proof fn found_props_are_unique(objects: ObjectProps, a: DisplayProps, b: DisplayProps)
    requires
        objects.resolves(a),
        objects.resolves(b),
    ensures
        a == b,
{
}

/// A name is looked up by going through the properties: the first that has it is found, and
/// nothing is where none has it.
pub proof fn lookup_finds_the_first(props: Seq<PropertyInfo>, name: Seq<char>, i: int)
    requires
        0 <= i <= props.len(),
        forall|j: int| 0 <= j < i ==> (#[trigger] props[j]).name@ != name,
    ensures
        i < props.len() && props[i].name@ == name ==> lookup(props, name) == Some(props[i]),
        i == props.len() ==> lookup(props, name) is None,
    decreases props.len(),
{
    if i > 0 {
        let rest = props.drop_first();
        assert(props[0].name@ != name);
        assert forall|j: int| 0 <= j < i - 1 implies (#[trigger] rest[j]).name@ != name by {
            assert(rest[j] == props[j + 1]);
        }
        lookup_finds_the_first(rest, name, i - 1);
        if i < props.len() {
            assert(rest[i - 1] == props[i]);
        }
    }
}

/// What is found has the name, and is a property of the object.
pub proof fn lookup_finds_what_is_there(props: Seq<PropertyInfo>, name: Seq<char>)
    ensures
        lookup(props, name) is Some <==> exists|i: int|
            0 <= i < props.len() && (#[trigger] props[i]).name@ == name,
        lookup(props, name) matches Some(p) ==> p.name@ == name && props.contains(p),
    decreases props.len(),
{
    if props.len() > 0 {
        let rest = props.drop_first();
        if props[0].name@ == name {
            assert(props.contains(props[0]));
        } else {
            lookup_finds_what_is_there(rest, name);
            if lookup(rest, name) is Some {
                let p = lookup(rest, name)->0;
                let i = choose|i: int| 0 <= i < rest.len() && rest[i] == p;
                assert(props[i + 1] == p);
                assert(props[i + 1].name@ == name);
            }
            if exists|i: int| 0 <= i < props.len() && (#[trigger] props[i]).name@ == name {
                let i = choose|i: int| 0 <= i < props.len() && (#[trigger] props[i]).name@ == name;
                assert(rest[i - 1] == props[i]);
                assert(rest[i - 1].name@ == name);
            }
        }
    }
}

/// No two properties have the same name.
pub proof fn property_names_are_distinct(a: PropName, b: PropName)
    ensures
        a.spec_text() == b.spec_text() <==> a == b,
{
    reveal_strlit("CRTC_ID");
    reveal_strlit("FB_ID");
    reveal_strlit("MODE_ID");
    reveal_strlit("ACTIVE");
    reveal_strlit("SRC_X");
    reveal_strlit("SRC_Y");
    reveal_strlit("SRC_W");
    reveal_strlit("SRC_H");
    reveal_strlit("CRTC_X");
    reveal_strlit("CRTC_Y");
    reveal_strlit("CRTC_W");
    reveal_strlit("CRTC_H");
    reveal_strlit("ZPOS");
    let s = a.spec_text();
    let t = b.spec_text();
    assert(s == t ==> s.len() == t.len() && s[0] == t[0] && s[s.len() - 1] == t[t.len() - 1]);
}

/// The handle belongs to the first property of this name.
pub open spec fn is_handle_of(props: Seq<PropertyInfo>, name: Seq<char>, handle: u32) -> bool {
    lookup(props, name) matches Some(p) && p.handle == handle
}

/// The handles that requests are made with belong to the properties of the right names on the
/// right objects.
pub proof fn found_props_have_their_names(objects: ObjectProps, props: DisplayProps)
    ensures
        objects.resolves(props) <==> {
            &&& is_handle_of(objects.connector@, "CRTC_ID"@, props.conn_crtc)
            &&& is_handle_of(objects.crtc@, "MODE_ID"@, props.mode)
            &&& is_handle_of(objects.crtc@, "ACTIVE"@, props.active)
            &&& is_handle_of(objects.plane@, "CRTC_ID"@, props.crtc)
            &&& is_handle_of(objects.plane@, "FB_ID"@, props.fb)
            &&& is_handle_of(objects.plane@, "SRC_X"@, props.src_x)
            &&& is_handle_of(objects.plane@, "SRC_Y"@, props.src_y)
            &&& is_handle_of(objects.plane@, "SRC_W"@, props.src_w)
            &&& is_handle_of(objects.plane@, "SRC_H"@, props.src_h)
            &&& is_handle_of(objects.plane@, "CRTC_X"@, props.crtc_x)
            &&& is_handle_of(objects.plane@, "CRTC_Y"@, props.crtc_y)
            &&& is_handle_of(objects.plane@, "CRTC_W"@, props.crtc_w)
            &&& is_handle_of(objects.plane@, "CRTC_H"@, props.crtc_h)
            &&& props.zpos is Some <==> lookup(objects.plane@, "ZPOS"@) is Some
            &&& props.zpos is Some ==> is_handle_of(objects.plane@, "ZPOS"@, props.zpos->0)
        },
{
}

/// The handle of a property is that of the first one of its name, on the object that is asked for.
pub proof fn handles_are_those_of_the_object(objects: ObjectProps, name: PropName, handle: u32)
    ensures
        objects.handle(Object::Connector, name) == Some(handle) <==> is_handle_of(
            objects.connector@,
            name.spec_text(),
            handle,
        ),
        objects.handle(Object::Crtc, name) == Some(handle) <==> is_handle_of(
            objects.crtc@,
            name.spec_text(),
            handle,
        ),
        objects.handle(Object::Plane, name) == Some(handle) <==> is_handle_of(
            objects.plane@,
            name.spec_text(),
            handle,
        ),
        prop_handle(objects.plane@, name) is None <==> lookup(
            objects.plane@,
            name.spec_text(),
        ) is None,
{
}

/// Both ways of looking properties up ask for the same thirteen, each once. Displays that import
/// frames start with the plane, a modeset with a buffer of its own with the connector.
pub proof fn both_orders_ask_for_the_same(object: Object, name: PropName)
    ensures
        ({
            let needed = match object {
                Object::Connector => name == PropName::CrtcId,
                Object::Crtc => name == PropName::ModeId || name == PropName::Active,
                Object::Plane => name != PropName::ModeId && name != PropName::Active && name
                    != PropName::Zpos,
            };
            &&& display_order().contains((object, name)) <==> needed
            &&& modeset_order().contains((object, name)) <==> needed
        }),
        display_order().len() == 13 && modeset_order().len() == 13,
        display_order()[0] == (Object::Plane, PropName::FbId),
        display_order()[1] == (Object::Plane, PropName::CrtcId),
        display_order()[2].0 == Object::Connector,
        display_order()[3] == (Object::Crtc, PropName::ModeId),
        modeset_order()[0].0 == Object::Connector,
        modeset_order()[1] == (Object::Crtc, PropName::ModeId),
        modeset_order()[2] == (Object::Crtc, PropName::Active),
        modeset_order()[3] == (Object::Plane, PropName::CrtcId),
        modeset_order()[4] == (Object::Plane, PropName::FbId),
        display_order().skip(5) =~= modeset_order().skip(5),
        display_order()[5].1 == PropName::SrcX && display_order()[6].1 == PropName::SrcY,
        display_order()[7].1 == PropName::SrcW && display_order()[8].1 == PropName::SrcH,
        display_order()[9].1 == PropName::CrtcX && display_order()[10].1 == PropName::CrtcY,
        display_order()[11].1 == PropName::CrtcW && display_order()[12].1 == PropName::CrtcH,
{
    let d = display_order();
    let m = modeset_order();
    assert(d[0].1 == PropName::FbId && d[1].1 == PropName::CrtcId && d[2].1 == PropName::CrtcId
        && d[3].1 == PropName::ModeId && d[4].1 == PropName::Active && d[5].1 == PropName::SrcX
        && d[6].1 == PropName::SrcY && d[7].1 == PropName::SrcW && d[8].1 == PropName::SrcH
        && d[9].1 == PropName::CrtcX && d[10].1 == PropName::CrtcY && d[11].1 == PropName::CrtcW
        && d[12].1 == PropName::CrtcH);
    assert(m[0].1 == PropName::CrtcId && m[1].1 == PropName::ModeId && m[2].1 == PropName::Active
        && m[3].1 == PropName::CrtcId && m[4].1 == PropName::FbId && m[5].1 == PropName::SrcX
        && m[6].1 == PropName::SrcY && m[7].1 == PropName::SrcW && m[8].1 == PropName::SrcH
        && m[9].1 == PropName::CrtcX && m[10].1 == PropName::CrtcY && m[11].1 == PropName::CrtcW
        && m[12].1 == PropName::CrtcH);
}

/// The handles are found exactly where nothing is missing: what is missing is an obstacle to any
/// choice of handles.
pub proof fn missing_props_keep_from_resolving(objects: ObjectProps, props: DisplayProps, k: int)
    requires
        objects.first_missing(display_order(), k) || objects.first_missing(modeset_order(), k),
    ensures
        !objects.resolves(props),
{
}

/// A plane is of the type that its first property named `type` has as its value; without such a
/// property its type is not known.
pub proof fn plane_types_are_values(props: Seq<PropertyInfo>, i: int)
    requires
        0 <= i <= props.len(),
        forall|j: int| 0 <= j < i ==> (#[trigger] props[j]).name@ != "type"@,
    ensures
        i < props.len() && props[i].name@ == "type"@ ==> spec_plane_type_value(props) == Some(
            props[i].value,
        ),
        i == props.len() ==> spec_plane_type_value(props) is None,
{
    lookup_finds_the_first(props, "type"@, i);
}

/// The property that is reported is the first in the order that is missing: those before it were
/// found.
pub proof fn first_missing_comes_first(
    objects: ObjectProps,
    wanted: Seq<(Object, PropName)>,
    k: int,
    j: int,
)
    requires
        objects.first_missing(wanted, k),
        0 <= j < wanted.len(),
    ensures
        0 <= k < wanted.len(),
        objects.handle(wanted[k].0, wanted[k].1) is None,
        objects.handle(wanted[j].0, wanted[j].1) is None ==> k <= j,
{
}

} // verus!
