//! Rewriting of Kubernetes manifest files: a file is read as a StatefulSet
//! and as a Deployment, and each object whose containers run the image being
//! upgraded is written back with the new image.

use vstd::prelude::*;
use k8s_openapi::api::apps::v1::{Deployment, StatefulSet};
use serde_yaml_ng::value::{Tag, TaggedValue};
use serde_yaml_ng::Value;
use crate::gitops::edit::{any_matches, opt_strs, retarget_images, retargeted};
use crate::gitops::yaml::{fix_octal_strings, fixed_view, yaml_view, YamlNumber, YamlValue, YamlView};
use crate::models::opt_str;
use crate::text::contains;

verus! {

#[verifier::external_type_specification]
#[verifier::external_body]
pub struct ExSerdeYamlValue(Value);

/// The YAML document that `serde_yaml_ng::from_str` reads from `text`, or
/// `None` where the text is not YAML.
pub uninterp spec fn yaml_parse(text: Seq<char>) -> Option<YamlView>;

/// `doc` read as a StatefulSet (through `serde_json`): `None` where it is
/// not one, else the images of the containers of its pod template, `None`
/// where the template has no pod spec.
pub uninterp spec fn statefulset_images(doc: YamlView) -> Option<Option<Seq<Option<Seq<char>>>>>;

/// `doc` read as a Deployment, as [`statefulset_images`] reads a StatefulSet.
pub uninterp spec fn deployment_images(doc: YamlView) -> Option<Option<Seq<Option<Seq<char>>>>>;

/// The YAML text of `doc` read as a StatefulSet, with the first containers
/// of its pod template given `images` in turn; `None` where `doc` is no
/// StatefulSet or the object cannot be written.
pub uninterp spec fn statefulset_render(doc: YamlView, images: Seq<Option<Seq<char>>>) -> Option<Seq<char>>;

/// The YAML text of `doc` read as a Deployment with `images`, as
/// [`statefulset_render`] writes a StatefulSet.
pub uninterp spec fn deployment_render(doc: YamlView, images: Seq<Option<Seq<char>>>) -> Option<Seq<char>>;

/// The views of optional container image lists.
pub open spec fn opt_images(o: Option<Vec<Option<String>>>) -> Option<Seq<Option<Seq<char>>>> {
    match o {
        Some(v) => Some(opt_strs(v@)),
        None => None,
    }
}

/// The view of what reading a document as a workload gives.
pub open spec fn read_images(o: Option<Option<Vec<Option<String>>>>) -> Option<Option<Seq<Option<Seq<char>>>>> {
    match o {
        Some(p) => Some(opt_images(p)),
        None => None,
    }
}

/// Every container image of `images` after [`retargeted`].
pub open spec fn retargeted_all(images: Seq<Option<Seq<char>>>, base: Seq<char>, new_image: Seq<char>) -> Seq<Option<Seq<char>>> {
    images.map_values(|i: Option<Seq<char>>| retargeted(i, base, new_image))
}

/// Which objects of a manifest are written back, and with which container
/// images: the StatefulSet when one of its images contains `base`; the
/// Deployment when one of its images does or the StatefulSet was written.
pub open spec fn rewrite_plan(
    statefulset: Option<Option<Seq<Option<Seq<char>>>>>,
    deployment: Option<Option<Seq<Option<Seq<char>>>>>,
    base: Seq<char>,
    new_image: Seq<char>,
) -> (Option<Seq<Option<Seq<char>>>>, Option<Seq<Option<Seq<char>>>>) {
    let set_write = match statefulset {
        Some(Some(images)) => if any_matches(images, base) {
            Some(retargeted_all(images, base, new_image))
        } else {
            None
        },
        _ => None,
    };
    let dep_write = match deployment {
        Some(Some(images)) => if set_write is Some || any_matches(images, base) {
            Some(retargeted_all(images, base, new_image))
        } else {
            None
        },
        Some(None) => if set_write is Some {
            Some(Seq::empty())
        } else {
            None
        },
        None => None,
    };
    (set_write, dep_write)
}

/// The image text of a container, none counting as empty.
pub open spec fn image_text(image: Option<Seq<char>>) -> Seq<char> {
    match image {
        Some(s) => s,
        None => Seq::empty(),
    }
}

/// In a written object every container whose image contains the base image
/// runs the new image and every other container keeps its image; a
/// StatefulSet is written exactly when one of its images contains the base
/// image.
pub proof fn lemma_plan_moves_every_matching_container(
    statefulset: Option<Option<Seq<Option<Seq<char>>>>>,
    deployment: Option<Option<Seq<Option<Seq<char>>>>>,
    base: Seq<char>,
    new_image: Seq<char>,
)
    ensures
        ({
            let p = rewrite_plan(statefulset, deployment, base, new_image);
            &&& statefulset matches Some(Some(images)) ==> (p.0 is Some <==> exists|i: int|
                0 <= i < images.len() && contains(image_text(#[trigger] images[i]), base))
            &&& statefulset matches Some(Some(images)) ==> (p.0 matches Some(w) ==> {
                &&& w.len() == images.len()
                &&& forall|i: int| 0 <= i < images.len() ==> #[trigger] w[i] == if contains(image_text(images[i]), base) {
                    Some(new_image)
                } else {
                    images[i]
                }
            })
            &&& deployment matches Some(Some(images)) ==> (p.1 matches Some(w) ==> {
                &&& w.len() == images.len()
                &&& forall|i: int| 0 <= i < images.len() ==> #[trigger] w[i] == if contains(image_text(images[i]), base) {
                    Some(new_image)
                } else {
                    images[i]
                }
            })
        }),
{
}

/// The texts a manifest file is written with, in order (the last one
/// stays); `None` stands for an object that could not be written.
pub open spec fn manifest_rewrites(contents: Seq<char>, base: Seq<char>, new_image: Seq<char>) -> Seq<Option<Seq<char>>> {
    match yaml_parse(contents) {
        None => Seq::empty(),
        Some(y) => {
            let doc = fixed_view(y);
            let plan = rewrite_plan(statefulset_images(doc), deployment_images(doc), base, new_image);
            let set_writes = match plan.0 {
                Some(images) => seq![statefulset_render(doc, images)],
                None => Seq::empty(),
            };
            let dep_writes = match plan.1 {
                Some(images) => seq![deployment_render(doc, images)],
                None => Seq::empty(),
            };
            set_writes + dep_writes
        },
    }
}

/// The objects of a manifest to write back, with their container images.
pub struct RewritePlan {
    pub statefulset: Option<Vec<Option<String>>>,
    pub deployment: Option<Vec<Option<String>>>,
}

/// The library's YAML number of a `serde_yaml_ng` number: an integer where
/// `as_u64` or `as_i64` gives one, else the number itself.
#[verifier::external_body]
fn number_from_serde(n: serde_yaml_ng::Number) -> YamlNumber {
    match (n.as_u64(), n.as_i64()) {
        (Some(u), _) => YamlNumber::PosInt(u),
        (None, Some(i)) => YamlNumber::NegInt(i),
        (None, None) => YamlNumber::Float(n),
    }
}

/// The `serde_yaml_ng` number of the library's YAML number.
#[verifier::external_body]
fn number_to_serde(n: &YamlNumber) -> serde_yaml_ng::Number {
    match n {
        YamlNumber::PosInt(u) => (*u).into(),
        YamlNumber::NegInt(i) => (*i).into(),
        YamlNumber::Float(f) => f.clone(),
    }
}

/// Node-for-node copy of a `serde_yaml_ng` value into the library's.
#[verifier::external_body]
fn from_serde(v: Value) -> YamlValue {
    match v {
        Value::Null => YamlValue::Null,
        Value::Bool(b) => YamlValue::Bool(b),
        Value::Number(n) => YamlValue::Number(number_from_serde(n)),
        Value::String(s) => YamlValue::String(s),
        Value::Sequence(xs) => YamlValue::Sequence(xs.into_iter().map(from_serde).collect()),
        Value::Mapping(m) => YamlValue::Mapping(m.into_iter().map(|(k, x)| (from_serde(k), from_serde(x))).collect()),
        Value::Tagged(t) => YamlValue::Tagged(t.tag.to_string(), Box::new(from_serde(t.value))),
    }
}

/// Node-for-node copy of the library's YAML value into `serde_yaml_ng`'s.
#[verifier::external_body]
fn to_serde(v: &YamlValue) -> Value {
    match v {
        YamlValue::Null => Value::Null,
        YamlValue::Bool(b) => Value::Bool(*b),
        YamlValue::Number(n) => Value::Number(number_to_serde(n)),
        YamlValue::String(s) => Value::String(s.clone()),
        YamlValue::Sequence(xs) => Value::Sequence(xs.iter().map(to_serde).collect()),
        YamlValue::Mapping(xs) => Value::Mapping(xs.iter().map(|(k, x)| (to_serde(k), to_serde(x))).collect()),
        YamlValue::Tagged(t, x) => Value::Tagged(Box::new(TaggedValue { tag: Tag::new(t.clone()), value: to_serde(x) })),
    }
}

/// `serde_yaml_ng::from_str` into a YAML value: the contract names the
/// document it reads as [`yaml_parse`] of the text and says nothing of how
/// YAML is read.
#[verifier::external_body]
fn parse_yaml(text: &str) -> (r: Option<YamlValue>)
    ensures
        match r {
            Some(v) => yaml_parse(text@) == Some(yaml_view(v)),
            None => yaml_parse(text@) is None,
        },
{
    match serde_yaml_ng::from_str::<Value>(text) {
        Ok(v) => Some(from_serde(v)),
        Err(_) => None,
    }
}

/// `serde_json::to_value` of the document, then `serde_json::from_value`
/// into a `StatefulSet`, and the images of its pod template's containers:
/// the contract names the outcome [`statefulset_images`] of the document.
#[verifier::external_body]
fn read_statefulset(doc: &YamlValue) -> (r: Option<Option<Vec<Option<String>>>>)
    ensures
        read_images(r) == statefulset_images(yaml_view(*doc)),
{
    let json = serde_json::to_value(to_serde(doc)).ok()?;
    let object: StatefulSet = serde_json::from_value(json).ok()?;
    Some(object.spec.template.spec.map(|pod| pod.containers.into_iter().map(|c| c.image).collect()))
}

/// [`read_statefulset`] for a `Deployment`: the contract names the outcome
/// [`deployment_images`] of the document.
#[verifier::external_body]
fn read_deployment(doc: &YamlValue) -> (r: Option<Option<Vec<Option<String>>>>)
    ensures
        read_images(r) == deployment_images(yaml_view(*doc)),
{
    let json = serde_json::to_value(to_serde(doc)).ok()?;
    let object: Deployment = serde_json::from_value(json).ok()?;
    Some(object.spec.template.spec.map(|pod| pod.containers.into_iter().map(|c| c.image).collect()))
}

/// The document read as a `StatefulSet` as in [`read_statefulset`], its
/// containers given `images` in turn, and `serde_yaml_ng::to_string` of the
/// object: the contract names the text [`statefulset_render`].
#[verifier::external_body]
fn render_statefulset(doc: &YamlValue, images: Vec<Option<String>>) -> (r: Option<String>)
    ensures
        opt_str(r) == statefulset_render(yaml_view(*doc), opt_strs(images@)),
{
    let json = serde_json::to_value(to_serde(doc)).ok()?;
    let mut object: StatefulSet = serde_json::from_value(json).ok()?;
    if let Some(pod) = object.spec.template.spec.as_mut() {
        pod.containers.iter_mut().zip(images).for_each(|(c, image)| c.image = image);
    }
    serde_yaml_ng::to_string(&object).ok()
}

/// [`render_statefulset`] for a `Deployment`: the contract names the text
/// [`deployment_render`].
#[verifier::external_body]
fn render_deployment(doc: &YamlValue, images: Vec<Option<String>>) -> (r: Option<String>)
    ensures
        opt_str(r) == deployment_render(yaml_view(*doc), opt_strs(images@)),
{
    let json = serde_json::to_value(to_serde(doc)).ok()?;
    let mut object: Deployment = serde_json::from_value(json).ok()?;
    if let Some(pod) = object.spec.template.spec.as_mut() {
        pod.containers.iter_mut().zip(images).for_each(|(c, image)| c.image = image);
    }
    serde_yaml_ng::to_string(&object).ok()
}

/// Points the images of `images` that contain `base` at `new_image`, and
/// tells whether any did.
fn retarget_all(images: Vec<Option<String>>, base: &str, new_image: &str) -> (r: (Vec<Option<String>>, bool))
    ensures
        opt_strs(r.0@) == retargeted_all(opt_strs(images@), base@, new_image@),
        r.1 == any_matches(opt_strs(images@), base@),
{
    let ghost before = images@;
    let r = retarget_images(images, base, new_image);
    assert(opt_strs(r.0@) =~= retargeted_all(opt_strs(before), base@, new_image@));
    r
}

/// Decides which objects of a manifest are written back, from what reading
/// it as a StatefulSet and as a Deployment gave.
pub fn plan_rewrites(
    statefulset: Option<Option<Vec<Option<String>>>>,
    deployment: Option<Option<Vec<Option<String>>>>,
    base_image: &str,
    new_image: &str,
) -> (p: RewritePlan)
    ensures
        (opt_images(p.statefulset), opt_images(p.deployment)) == rewrite_plan(
            read_images(statefulset),
            read_images(deployment),
            base_image@,
            new_image@,
        ),
{
    let mut set_write: Option<Vec<Option<String>>> = None;
    if let Some(Some(images)) = statefulset {
        let (images, hit) = retarget_all(images, base_image, new_image);
        if hit {
            set_write = Some(images);
        }
    }
    let written = set_write.is_some();
    let dep_write = match deployment {
        Some(Some(images)) => {
            let (images, hit) = retarget_all(images, base_image, new_image);
            if written || hit {
                Some(images)
            } else {
                None
            }
        },
        Some(None) => {
            if written {
                let none: Vec<Option<String>> = Vec::new();
                assert(opt_strs(none@) =~= Seq::<Option<Seq<char>>>::empty());
                Some(none)
            } else {
                None
            }
        },
        None => None,
    };
    RewritePlan { statefulset: set_write, deployment: dep_write }
}

/// The texts that a manifest file with `contents` is written with when
/// the containers running `base_image` are upgraded to `new_image`, in the
/// order of the writes; `None` stands for an object that could not be
/// written as YAML.
pub fn rewrite_manifest(contents: &str, base_image: &str, new_image: &str) -> (r: Vec<Option<String>>)
    ensures
        opt_strs(r@) == manifest_rewrites(contents@, base_image@, new_image@),
{
    let mut writes: Vec<Option<String>> = Vec::new();
    let doc = match parse_yaml(contents) {
        Some(v) => fix_octal_strings(v),
        None => {
            assert(opt_strs(writes@) =~= Seq::<Option<Seq<char>>>::empty());
            return writes;
        },
    };
    let plan = plan_rewrites(read_statefulset(&doc), read_deployment(&doc), base_image, new_image);
    if let Some(images) = plan.statefulset {
        writes.push(render_statefulset(&doc, images));
    }
    let ghost after_set = opt_strs(writes@);
    if let Some(images) = plan.deployment {
        writes.push(render_deployment(&doc, images));
    }
    proof {
        let spec_doc = yaml_view(doc);
        let p = rewrite_plan(statefulset_images(spec_doc), deployment_images(spec_doc), base_image@, new_image@);
        let s = match p.0 {
            Some(images) => seq![statefulset_render(spec_doc, images)],
            None => Seq::<Option<Seq<char>>>::empty(),
        };
        assert(after_set =~= s);
        let d = match p.1 {
            Some(images) => seq![deployment_render(spec_doc, images)],
            None => Seq::<Option<Seq<char>>>::empty(),
        };
        assert(opt_strs(writes@) =~= s + d);
    }
    writes
}

} // verus!
