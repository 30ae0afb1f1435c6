//! The material data model: named materials carrying a table of typed
//! properties, with convenience lookups for the common keys.

use vstd::prelude::*;

use crate::obj::{Vec3, Vec3View};
use crate::text::str_eq;

verus! {

/// A single value in a material definition.
#[derive(Debug, PartialEq, Eq)]
pub enum MaterialProperty {
    /// A float value, kept as its source token.  Property names starting
    /// with `N` carry these.
    Float(String),
    /// An unsigned integer value, as `illum` carries.
    Integer(u32),
    /// A three-component vector of float tokens.  Property names starting
    /// with `K` carry these.
    Vector(Vec3),
    /// A filesystem path, unescaped.  Property names starting with `map_`
    /// carry these.
    Path(String),
}

/// The mathematical value of a [`MaterialProperty`].
pub enum PropertyView {
    Float(Seq<char>),
    Integer(u32),
    Vector(Vec3View),
    Path(Seq<char>),
}

impl View for MaterialProperty {
    type V = PropertyView;

    open spec fn view(&self) -> PropertyView {
        match self {
            MaterialProperty::Float(t) => PropertyView::Float(t@),
            MaterialProperty::Integer(v) => PropertyView::Integer(*v),
            MaterialProperty::Vector(v) => PropertyView::Vector(v@),
            MaterialProperty::Path(p) => PropertyView::Path(p@),
        }
    }
}

impl Clone for MaterialProperty {
    fn clone(&self) -> (r: Self)
        ensures
            r@ == self@,
    {
        match self {
            MaterialProperty::Float(t) => MaterialProperty::Float(t.clone()),
            MaterialProperty::Integer(v) => MaterialProperty::Integer(*v),
            MaterialProperty::Vector(v) => MaterialProperty::Vector(v.clone()),
            MaterialProperty::Path(p) => MaterialProperty::Path(p.clone()),
        }
    }
}

/// A material defined in MTL text: a name and its properties, keyed by the
/// property name.
#[derive(Debug, Clone)]
pub struct Material {
    pub name: String,
    pub properties: Vec<(String, MaterialProperty)>,
}

/// The mathematical value of a [`Material`].
pub struct MaterialView {
    pub name: Seq<char>,
    pub properties: Seq<(Seq<char>, PropertyView)>,
}

impl View for Material {
    type V = MaterialView;

    open spec fn view(&self) -> MaterialView {
        MaterialView {
            name: self.name@,
            properties: self.properties@.map_values(
                |p: (String, MaterialProperty)| (p.0@, p.1@),
            ),
        }
    }
}

/// The value stored under `key` in the property table `props`: the first
/// entry with that key, if any.
pub open spec fn spec_get(props: Seq<(Seq<char>, PropertyView)>, key: Seq<char>) -> Option<
    PropertyView,
>
    decreases props.len(),
{
    if props.len() == 0 {
        None
    } else if props[0].0 == key {
        Some(props[0].1)
    } else {
        spec_get(props.skip(1), key)
    }
}

/// The property table `props` with `value` stored under `key`: an existing
/// entry with that key is replaced in place, otherwise the entry is
/// appended.
pub open spec fn spec_insert(
    props: Seq<(Seq<char>, PropertyView)>,
    key: Seq<char>,
    value: PropertyView,
) -> Seq<(Seq<char>, PropertyView)>
    decreases props.len(),
{
    if props.len() == 0 {
        seq![(key, value)]
    } else if props[0].0 == key {
        seq![(key, value)] + props.skip(1)
    } else {
        seq![props[0]] + spec_insert(props.skip(1), key, value)
    }
}

/// Storing then looking up the same key yields the stored value, and
/// leaves every other key's entry as it was.
pub proof fn lemma_insert_get(
    props: Seq<(Seq<char>, PropertyView)>,
    key: Seq<char>,
    value: PropertyView,
    other: Seq<char>,
)
    ensures
        spec_get(spec_insert(props, key, value), key) == Some(value),
        other != key ==> spec_get(spec_insert(props, key, value), other) == spec_get(props, other),
    decreases props.len(),
{
    if props.len() == 0 {
        assert(spec_insert(props, key, value) =~= seq![(key, value)]);
        assert(spec_insert(props, key, value).skip(1) =~= Seq::<
            (Seq<char>, PropertyView),
        >::empty());
    } else if props[0].0 == key {
        let out = spec_insert(props, key, value);
        assert(out[0] == (key, value));
        assert(out.skip(1) =~= props.skip(1));
    } else {
        let out = spec_insert(props, key, value);
        assert(out[0] == props[0]);
        assert(out.skip(1) =~= spec_insert(props.skip(1), key, value));
        lemma_insert_get(props.skip(1), key, value, other);
    }
}

/// Stores `value` under `key` in `props`, replacing an existing entry with
/// that key and appending otherwise.
pub fn insert_property(
    props: &mut Vec<(String, MaterialProperty)>,
    key: String,
    value: MaterialProperty,
)
    ensures
        final(props)@.map_values(|p: (String, MaterialProperty)| (p.0@, p.1@)) == spec_insert(
            old(props)@.map_values(|p: (String, MaterialProperty)| (p.0@, p.1@)),
            key@,
            value@,
        ),
{
    let ghost table = old(props)@.map_values(|p: (String, MaterialProperty)| (p.0@, p.1@));
    let mut i: usize = 0;
    proof {
        assert(table.skip(0) =~= table);
        assert(table.subrange(0, 0) + spec_insert(table.skip(0), key@, value@) =~= spec_insert(
            table,
            key@,
            value@,
        ));
    }
    while i < props.len()
        invariant
            i <= props@.len(),
            props@ == old(props)@,
            table == old(props)@.map_values(|p: (String, MaterialProperty)| (p.0@, p.1@)),
            forall|m: int| 0 <= m < i ==> #[trigger] table[m].0 != key@,
            spec_insert(table, key@, value@) == table.subrange(0, i as int) + spec_insert(
                table.skip(i as int),
                key@,
                value@,
            ),
        decreases props@.len() - i,
    {
        if str_eq(props[i].0.as_str(), key.as_str()) {
            proof {
                assert(table.skip(i as int)[0] == table[i as int]);
                assert(spec_insert(table.skip(i as int), key@, value@) =~= seq![(key@, value@)]
                    + table.skip(i as int + 1));
            }
            props.set(i, (key, value));
            proof {
                assert(final(props)@.map_values(|p: (String, MaterialProperty)| (p.0@, p.1@))
                    =~= spec_insert(table, key@, value@));
            }
            return ;
        }
        proof {
            assert(table.skip(i as int)[0] == table[i as int]);
            assert(table.skip(i as int).skip(1) =~= table.skip(i as int + 1));
            assert(table.subrange(0, i as int + 1) + spec_insert(
                table.skip(i as int + 1),
                key@,
                value@,
            ) =~= table.subrange(0, i as int) + spec_insert(table.skip(i as int), key@, value@));
        }
        i = i + 1;
    }
    proof {
        assert(table.skip(i as int) =~= Seq::<(Seq<char>, PropertyView)>::empty());
    }
    props.push((key, value));
    proof {
        assert(final(props)@.map_values(|p: (String, MaterialProperty)| (p.0@, p.1@))
            =~= spec_insert(table, key@, value@));
    }
}

impl Material {
    /// The material name.
    pub fn name(&self) -> (r: &str)
        ensures
            r@ == self@.name,
    {
        self.name.as_str()
    }

    /// The value defined under `key`, if any.
    pub fn get(&self, key: &str) -> (r: Option<&MaterialProperty>)
        ensures
            match r {
                Some(p) => spec_get(self@.properties, key@) == Some(p@),
                None => spec_get(self@.properties, key@) is None,
            },
    {
        let ghost table = self@.properties;
        let mut i: usize = 0;
        proof {
            assert(table.skip(0) =~= table);
        }
        while i < self.properties.len()
            invariant
                i <= self.properties@.len(),
                table == self@.properties,
                spec_get(table, key@) == spec_get(table.skip(i as int), key@),
            decreases self.properties@.len() - i,
        {
            proof {
                assert(table.skip(i as int)[0] == table[i as int]);
                assert(table.skip(i as int).skip(1) =~= table.skip(i as int + 1));
            }
            if str_eq(self.properties[i].0.as_str(), key) {
                return Some(&self.properties[i].1);
            }
            i = i + 1;
        }
        proof {
            assert(table.skip(i as int) =~= Seq::<(Seq<char>, PropertyView)>::empty());
        }
        None
    }

    /// The ambient color, defined with `Ka`; nothing when the key is
    /// absent or holds a value of another kind.
    pub fn ambient_color(&self) -> (r: Option<&Vec3>)
        ensures
            match r {
                Some(v) => spec_get(self@.properties, "Ka"@) == Some(PropertyView::Vector(v@)),
                None => !(spec_get(self@.properties, "Ka"@) matches Some(
                    PropertyView::Vector(_),
                )),
            },
    {
        match self.get("Ka") {
            Some(MaterialProperty::Vector(v)) => Some(v),
            _ => None,
        }
    }

    /// The diffuse color, defined with `Kd`; nothing when the key is
    /// absent or holds a value of another kind.
    pub fn diffuse_color(&self) -> (r: Option<&Vec3>)
        ensures
            match r {
                Some(v) => spec_get(self@.properties, "Kd"@) == Some(PropertyView::Vector(v@)),
                None => !(spec_get(self@.properties, "Kd"@) matches Some(
                    PropertyView::Vector(_),
                )),
            },
    {
        match self.get("Kd") {
            Some(MaterialProperty::Vector(v)) => Some(v),
            _ => None,
        }
    }

    /// The specular color, defined with `Ks`; nothing when the key is
    /// absent or holds a value of another kind.
    pub fn specular_color(&self) -> (r: Option<&Vec3>)
        ensures
            match r {
                Some(v) => spec_get(self@.properties, "Ks"@) == Some(PropertyView::Vector(v@)),
                None => !(spec_get(self@.properties, "Ks"@) matches Some(
                    PropertyView::Vector(_),
                )),
            },
    {
        match self.get("Ks") {
            Some(MaterialProperty::Vector(v)) => Some(v),
            _ => None,
        }
    }

    /// The specular intensity token, defined with `Ns`; nothing when the
    /// key is absent or holds a value of another kind.
    pub fn specular_intensity(&self) -> (r: Option<&String>)
        ensures
            match r {
                Some(t) => spec_get(self@.properties, "Ns"@) == Some(PropertyView::Float(t@)),
                None => !(spec_get(self@.properties, "Ns"@) matches Some(PropertyView::Float(_))),
            },
    {
        match self.get("Ns") {
            Some(MaterialProperty::Float(t)) => Some(t),
            _ => None,
        }
    }

    /// The illumination model, defined with `illum`; nothing when the key
    /// is absent or holds a value of another kind.
    pub fn illumination(&self) -> (r: Option<u32>)
        ensures
            match r {
                Some(v) => spec_get(self@.properties, "illum"@) == Some(PropertyView::Integer(v)),
                None => !(spec_get(self@.properties, "illum"@) matches Some(
                    PropertyView::Integer(_),
                )),
            },
    {
        match self.get("illum") {
            Some(MaterialProperty::Integer(v)) => Some(*v),
            _ => None,
        }
    }

    /// The diffuse map path, defined with `map_Kd`; nothing when the key
    /// is absent or holds a value of another kind.
    pub fn diffuse_map(&self) -> (r: Option<&String>)
        ensures
            match r {
                Some(p) => spec_get(self@.properties, "map_Kd"@) == Some(PropertyView::Path(p@)),
                None => !(spec_get(self@.properties, "map_Kd"@) matches Some(
                    PropertyView::Path(_),
                )),
            },
    {
        match self.get("map_Kd") {
            Some(MaterialProperty::Path(p)) => Some(p),
            _ => None,
        }
    }
}

} // verus!
