//! The parts of the Kubernetes object model that a trace speaks of.

use vstd::prelude::*;
use vstd::std_specs::cmp::PartialEqSpec;

verus! {

/// The group, version and kind that identify a resource type.
#[derive(Debug)]
pub struct GVK {
    pub group: String,
    pub version: String,
    pub kind: String,
}

/// The text of a [`GVK`].
pub ghost struct GvkView {
    pub group: Seq<char>,
    pub version: Seq<char>,
    pub kind: Seq<char>,
}

impl View for GVK {
    type V = GvkView;

    open spec fn view(&self) -> GvkView {
        GvkView { group: self.group@, version: self.version@, kind: self.kind@ }
    }
}

impl Clone for GVK {
    fn clone(&self) -> (res: GVK)
        ensures
            res == *self,
    {
        GVK { group: self.group.clone(), version: self.version.clone(), kind: self.kind.clone() }
    }
}

impl PartialEq for GVK {
    fn eq(&self, other: &GVK) -> (res: bool) {
        self.group == other.group && self.version == other.version && self.kind == other.kind
    }
}

impl vstd::std_specs::cmp::PartialEqSpecImpl for GVK {
    open spec fn obeys_eq_spec() -> bool {
        true
    }

    open spec fn eq_spec(&self, other: &GVK) -> bool {
        self@ == other@
    }
}

/// How an object owned by some controller is named in a trace: the type of the owner, and its
/// namespaced name.
pub type OwnerKey = (GvkView, Seq<char>);

/// How long a pod ran, in seconds since the epoch.
#[derive(Clone, Copy, Debug, PartialEq, Eq, Structural)]
pub enum PodLifecycleData {
    /// The pod was never seen to run.
    Empty,
    /// The pod started at the given time and was still running when the trace ended.
    Running(i64),
    /// The pod ran from the first time to the second.
    Finished(i64, i64),
}

/// The API version and the kind that an object declares.
#[derive(Debug)]
pub struct TypeMeta {
    pub api_version: String,
    pub kind: String,
}

/// The text of a [`TypeMeta`].
pub ghost struct TypeMetaView {
    pub api_version: Seq<char>,
    pub kind: Seq<char>,
}

impl View for TypeMeta {
    type V = TypeMetaView;

    open spec fn view(&self) -> TypeMetaView {
        TypeMetaView { api_version: self.api_version@, kind: self.kind@ }
    }
}

impl DeepView for TypeMeta {
    type V = TypeMetaView;

    open spec fn deep_view(&self) -> TypeMetaView {
        self@
    }
}

impl Clone for TypeMeta {
    fn clone(&self) -> (res: TypeMeta)
        ensures
            res == *self,
    {
        TypeMeta { api_version: self.api_version.clone(), kind: self.kind.clone() }
    }
}

impl PartialEq for TypeMeta {
    fn eq(&self, other: &TypeMeta) -> (res: bool) {
        self.api_version == other.api_version && self.kind == other.kind
    }
}

impl vstd::std_specs::cmp::PartialEqSpecImpl for TypeMeta {
    open spec fn obeys_eq_spec() -> bool {
        true
    }

    open spec fn eq_spec(&self, other: &TypeMeta) -> bool {
        self@ == other@
    }
}

/// The metadata of an object: what names it, and the text of a JSON object with everything else.
#[derive(Debug)]
pub struct ObjectMeta {
    pub name: Option<String>,
    pub generate_name: Option<String>,
    pub namespace: Option<String>,
    pub rest: String,
}

/// The text of an [`ObjectMeta`].
pub ghost struct ObjectMetaView {
    pub name: Option<Seq<char>>,
    pub generate_name: Option<Seq<char>>,
    pub namespace: Option<Seq<char>>,
    pub rest: Seq<char>,
}

impl View for ObjectMeta {
    type V = ObjectMetaView;

    open spec fn view(&self) -> ObjectMetaView {
        ObjectMetaView {
            name: self.name.deep_view(),
            generate_name: self.generate_name.deep_view(),
            namespace: self.namespace.deep_view(),
            rest: self.rest@,
        }
    }
}

impl Clone for ObjectMeta {
    fn clone(&self) -> (res: ObjectMeta)
        ensures
            res == *self,
    {
        ObjectMeta {
            name: self.name.clone(),
            generate_name: self.generate_name.clone(),
            namespace: self.namespace.clone(),
            rest: self.rest.clone(),
        }
    }
}

impl ObjectMetaView {
    /// The most useful name at hand: the name, else the prefix that a name is generated from, else
    /// nothing.
    pub open spec fn name_any(self) -> Seq<char> {
        match (self.name, self.generate_name) {
            (Some(name), _) => name,
            (None, Some(prefix)) => prefix,
            (None, None) => Seq::empty(),
        }
    }

    /// The name behind its namespace and a slash; the name alone for a cluster-scoped object.
    pub open spec fn namespaced_name(self) -> Seq<char> {
        match self.namespace {
            Some(namespace) => namespace + seq!['/'] + self.name_any(),
            None => self.name_any(),
        }
    }
}

impl ObjectMeta {
    /// The most useful name at hand.
    pub fn name_any(&self) -> (res: String)
        ensures
            res@ == self@.name_any(),
    {
        match &self.name {
            Some(name) => name.clone(),
            None => match &self.generate_name {
                Some(prefix) => prefix.clone(),
                None => String::new(),
            },
        }
    }
}

/// An object of any type.
#[derive(Debug)]
pub struct DynamicObject {
    /// The type fields, not always present.
    pub types: Option<TypeMeta>,
    pub metadata: ObjectMeta,
    /// The text of a JSON object with all other fields.
    pub data: String,
}

/// The text of a [`DynamicObject`].
pub ghost struct DynamicObjectView {
    pub types: Option<TypeMetaView>,
    pub metadata: ObjectMetaView,
    pub data: Seq<char>,
}

impl View for DynamicObject {
    type V = DynamicObjectView;

    open spec fn view(&self) -> DynamicObjectView {
        DynamicObjectView {
            types: self.types.deep_view(),
            metadata: self.metadata@,
            data: self.data@,
        }
    }
}

impl DeepView for DynamicObject {
    type V = DynamicObjectView;

    open spec fn deep_view(&self) -> DynamicObjectView {
        self@
    }
}

impl Clone for DynamicObject {
    fn clone(&self) -> (res: DynamicObject)
        ensures
            res == *self,
    {
        DynamicObject {
            types: self.types.clone(),
            metadata: self.metadata.clone(),
            data: self.data.clone(),
        }
    }
}

impl DynamicObject {
    /// The name of the object behind its namespace and a slash; the name alone for a cluster-scoped
    /// object.
    pub fn namespaced_name(&self) -> (res: String)
        ensures
            res@ == self@.metadata.namespaced_name(),
    {
        proof {
            reveal_strlit("/");
        }
        let name = self.metadata.name_any();
        match &self.metadata.namespace {
            Some(namespace) => {
                let res = namespace.clone().concat("/").concat(name.as_str());
                assert(res@ =~= self@.metadata.namespaced_name());
                res
            },
            None => name,
        }
    }
}

/// The text of a type is that of its three parts, and two types are equal if and only if all three are.
pub proof fn law_types_are_told_apart_by_every_part(a: GVK, b: GVK)
    ensures
        a@.group == a.group@,
        a@.version == a.version@,
        a@.kind == a.kind@,
        a.eq_spec(&b) <==> a.group@ == b.group@ && a.version@ == b.version@ && a.kind@ == b.kind@,
{
}

/// The text of declared types is that of both parts, and two are equal if and only if both are.
pub proof fn law_declared_types_are_told_apart_by_every_part(a: TypeMeta, b: TypeMeta)
    ensures
        a@.api_version == a.api_version@,
        a@.kind == a.kind@,
        a.deep_view() == a@,
        a.eq_spec(&b) <==> a.api_version@ == b.api_version@ && a.kind@ == b.kind@,
{
}

/// The contents of metadata are those of its fields; what is absent is absent.
pub proof fn law_metadata_is_its_fields(meta: ObjectMeta)
    ensures
        meta@.name is Some <==> meta.name is Some,
        meta.name matches Some(name) ==> meta@.name == Some(name@),
        meta@.generate_name is Some <==> meta.generate_name is Some,
        meta.generate_name matches Some(prefix) ==> meta@.generate_name == Some(prefix@),
        meta@.namespace is Some <==> meta.namespace is Some,
        meta.namespace matches Some(namespace) ==> meta@.namespace == Some(namespace@),
        meta@.rest == meta.rest@,
{
}

/// The contents of an object are those of its fields.
pub proof fn law_object_is_its_fields(object: DynamicObject)
    ensures
        object@.types is Some <==> object.types is Some,
        object.types matches Some(types) ==> object@.types == Some(types@),
        object@.metadata == object.metadata@,
        object@.data == object.data@,
        object.deep_view() == object@,
{
}

/// An object goes by its name; by the prefix that a name is generated from, if it has no name; and by
/// nothing, if it has neither. Its namespace has no say in that.
pub proof fn law_name_comes_before_prefix(meta: ObjectMetaView, namespace: Option<Seq<char>>)
    ensures
        meta.name matches Some(name) ==> meta.name_any() == name,
        meta.name is None ==> (meta.generate_name matches Some(prefix) ==> meta.name_any() == prefix),
        meta.name is None && meta.generate_name is None ==> meta.name_any().len() == 0,
        (ObjectMetaView { namespace, ..meta }).name_any() == meta.name_any(),
{
}

/// The namespaced name is made of the namespace, a slash and the name, in that order, and of nothing
/// else; without a namespace it is the name.
pub proof fn law_namespaced_name_has_its_parts(meta: ObjectMetaView)
    ensures
        meta.namespace matches Some(namespace) ==> {
            &&& meta.namespaced_name().len() == namespace.len() + 1 + meta.name_any().len()
            &&& meta.namespaced_name().take(namespace.len() as int) == namespace
            &&& meta.namespaced_name()[namespace.len() as int] == '/'
            &&& meta.namespaced_name().skip(namespace.len() as int + 1) == meta.name_any()
        },
        meta.namespace is None ==> meta.namespaced_name() == meta.name_any(),
{
    match meta.namespace {
        Some(namespace) => {
            assert(meta.namespaced_name().take(namespace.len() as int) =~= namespace);
            assert(meta.namespaced_name().skip(namespace.len() as int + 1) =~= meta.name_any());
        },
        None => {},
    }
}

/// Of two objects in namespaces that go by the same name and have the same namespaced name, the
/// namespaces are the same.
pub proof fn law_namespaces_are_told_apart(a: ObjectMetaView, b: ObjectMetaView)
    requires
        a.namespace is Some,
        b.namespace is Some,
        a.name_any() == b.name_any(),
        a.namespaced_name() == b.namespaced_name(),
    ensures
        a.namespace == b.namespace,
{
    law_namespaced_name_has_its_parts(a);
    law_namespaced_name_has_its_parts(b);
}

} // verus!
