use vstd::prelude::*;
use crate::error::BuildError;
use crate::engine::{
    compile_template, compiles_to_template, dot_tag_free, marker_free, render_compiled, rendering,
    scan_dot_tag_free, scan_marker_free,
};
use crate::scheme::{slot_key, slot_key_str, Scheme, SchemeModel};
use crate::template::{DescriptorModel, TemplateDescriptor};
use crate::text::pairs_view;

verus! {

/// The bindings one scheme hands to the engine: its display name under
/// `scheme`, its author under `author`, and the sixteen color slots under
/// their keys, in slot order.
pub open spec fn bindings_model(s: SchemeModel) -> Seq<(Seq<char>, Seq<char>)> {
    seq![("scheme"@, s.display_name), ("author"@, s.author)] + Seq::new(
        16,
        |i: int| (slot_key(i), s.slots[i]),
    )
}

/// Builds one scheme's bindings.
pub fn scheme_bindings(s: &Scheme) -> (r: Vec<(String, String)>)
    requires
        s.wf(),
    ensures
        pairs_view(r@) == bindings_model(s@),
{
    let mut r: Vec<(String, String)> = Vec::new();
    r.push(("scheme".to_owned(), s.display_name.clone()));
    r.push(("author".to_owned(), s.author.clone()));
    let mut i: usize = 0;
    while i < 16
        invariant
            s.wf(),
            0 <= i <= 16,
            r@.len() == 2 + i,
            r@[0].0@ == "scheme"@ && r@[0].1@ == s@.display_name,
            r@[1].0@ == "author"@ && r@[1].1@ == s@.author,
            forall|j: int|
                0 <= j < i ==> (#[trigger] r@[2 + j]).0@ == slot_key(j) && r@[2 + j].1@
                    == s@.slots[j],
        decreases 16 - i,
    {
        r.push((slot_key_str(i).to_owned(), s.slots[i].clone()));
        i = i + 1;
    }
    proof {
        assert forall|k: int|
            0 <= k < pairs_view(r@).len() implies pairs_view(r@)[k] == bindings_model(s@)[k] by {
            if k >= 2 {
                assert(r@[2 + (k - 2)].0@ == slot_key(k - 2) && r@[2 + (k - 2)].1@ == s@.slots[k
                    - 2]);
            }
        }
        assert(pairs_view(r@) =~= bindings_model(s@));
    }
    r
}

/// The name of the output file one (template, scheme) pair produces.
pub open spec fn output_file_name_model(
    template: Seq<char>,
    scheme: Seq<char>,
    extension: Seq<char>,
) -> Seq<char> {
    "base16-"@ + template + "-"@ + scheme + "."@ + extension
}

/// Builds the output file name `base16-<template>-<scheme>.<extension>`.
pub fn output_file_name(template: &str, scheme: &str, extension: &str) -> (r: String)
    ensures
        r@ == output_file_name_model(template@, scheme@, extension@),
{
    let mut r: String = "base16-".to_owned();
    r.append(template);
    r.append("-");
    r.append(scheme);
    r.append(".");
    r.append(extension);
    r
}

/// The path of a template's source file under the template directory.
pub open spec fn template_source_path_model(name: Seq<char>) -> Seq<char> {
    "./templates/"@ + name + ".mustache"@
}

/// Builds the conventional path of a template's source file.
pub fn template_source_path(name: &str) -> (r: String)
    ensures
        r@ == template_source_path_model(name@),
{
    let mut r: String = "./templates/".to_owned();
    r.append(name);
    r.append(".mustache");
    r
}

/// One rendered output: the directory it belongs under, its file name, and
/// its full contents.
#[derive(Debug)]
pub struct OutputFile {
    pub dir: String,
    pub file_name: String,
    pub contents: String,
}

/// The mathematical value of one rendered output.
pub ghost struct OutputModel {
    pub dir: Seq<char>,
    pub file_name: Seq<char>,
    pub contents: Seq<char>,
}

impl View for OutputFile {
    type V = OutputModel;

    open spec fn view(&self) -> OutputModel {
        OutputModel { dir: self.dir@, file_name: self.file_name@, contents: self.contents@ }
    }
}

/// The view of an output vector.
pub open spec fn outputs_view(s: Seq<OutputFile>) -> Seq<OutputModel> {
    s.map_values(|o: OutputFile| o@)
}

/// The view of the template sources the caller found, one per descriptor,
/// absent where the source file was missing.
pub open spec fn sources_view(s: Seq<Option<String>>) -> Seq<Option<Seq<char>>> {
    s.map_values(
        |o: Option<String>|
            match o {
                Some(x) => Some(x@),
                None => None,
            },
    )
}

/// Why the pipeline aborted.
pub ghost enum PipeFault {
    /// The descriptor at this position has no source file.
    MissingSource { template: int },
    /// The source of the descriptor at this position holds a partial or
    /// set-delimiter tag, which the pipeline does not support: either one
    /// makes the engine's work depend on more than the text and the
    /// bindings.
    MarkerTag { template: int },
    /// The engine rejected the source of the descriptor at this position.
    BadTemplate { template: int },
    /// The source of the descriptor at this position names the implicit
    /// iterator `.`, which the engine cannot interpolate from a key/value
    /// mapping.
    DotTag { template: int },
    /// The engine failed rendering this (template, scheme) pair.
    RenderFailed { template: int, scheme: int },
}

/// The output one pair yields.
pub open spec fn pair_output(
    d: DescriptorModel,
    src: Seq<char>,
    scheme: (Seq<char>, SchemeModel),
) -> OutputModel {
    OutputModel {
        dir: d.output,
        file_name: output_file_name_model(d.name, scheme.0, d.extension),
        contents: rendering(src, bindings_model(scheme.1)).unwrap(),
    }
}

/// Folds one compiled template over every scheme, in store order, stopping
/// at the first pair the engine fails on.
pub open spec fn template_fold(
    acc: Seq<OutputModel>,
    d: DescriptorModel,
    src: Seq<char>,
    schemes: Seq<(Seq<char>, SchemeModel)>,
    t: int,
    base_s: int,
) -> Result<Seq<OutputModel>, PipeFault>
    decreases schemes.len(),
{
    if schemes.len() == 0 {
        Ok(acc)
    } else if rendering(src, bindings_model(schemes[0].1)) is None {
        Err(PipeFault::RenderFailed { template: t, scheme: base_s })
    } else {
        template_fold(
            acc.push(pair_output(d, src, schemes[0])),
            d,
            src,
            schemes.drop_first(),
            t,
            base_s + 1,
        )
    }
}

/// Folds every descriptor, in registry order, over every scheme, stopping
/// at the first missing source, rejected or implicit-iterator template, or
/// failed pair.
pub open spec fn pipeline_fold(
    acc: Seq<OutputModel>,
    ds: Seq<DescriptorModel>,
    srcs: Seq<Option<Seq<char>>>,
    schemes: Seq<(Seq<char>, SchemeModel)>,
    t: int,
) -> Result<Seq<OutputModel>, PipeFault>
    decreases ds.len(),
{
    if ds.len() == 0 {
        Ok(acc)
    } else {
        match srcs[0] {
            None => Err(PipeFault::MissingSource { template: t }),
            Some(src) => if !marker_free(src) {
                Err(PipeFault::MarkerTag { template: t })
            } else if !compiles_to_template(src) {
                Err(PipeFault::BadTemplate { template: t })
            } else if !dot_tag_free(src) {
                Err(PipeFault::DotTag { template: t })
            } else {
                match template_fold(acc, ds[0], src, schemes, t, 0) {
                    Err(f) => Err(f),
                    Ok(acc2) => pipeline_fold(
                        acc2,
                        ds.drop_first(),
                        srcs.drop_first(),
                        schemes,
                        t + 1,
                    ),
                }
            },
        }
    }
}

/// True when `t` is the position of the first descriptor without a source.
pub open spec fn missing_first_at(srcs: Seq<Option<Seq<char>>>, t: int) -> bool {
    &&& 0 <= t < srcs.len()
    &&& srcs[t] is None
    &&& forall|j: int| 0 <= j < t ==> (#[trigger] srcs[j]) is Some
}

/// True when some descriptor has no source.
pub open spec fn has_missing(srcs: Seq<Option<Seq<char>>>) -> bool {
    exists|t: int| 0 <= t < srcs.len() && (#[trigger] srcs[t]) is None
}

/// The position of the first descriptor without a source; meaningful when
/// `has_missing` holds.
pub open spec fn first_missing(srcs: Seq<Option<Seq<char>>>) -> int {
    choose|t: int| missing_first_at(srcs, t)
}

/// The first missing position is unique.
pub proof fn lemma_missing_first_unique(srcs: Seq<Option<Seq<char>>>, t1: int, t2: int)
    requires
        missing_first_at(srcs, t1),
        missing_first_at(srcs, t2),
    ensures
        t1 == t2,
{
}

/// What the whole run produces from given descriptors, sources and
/// schemes. Every declared template must have a source before any pair is
/// rendered: the first missing one aborts the run on its own, whatever the
/// engine would have said about the others.
pub open spec fn pipeline_result(
    ds: Seq<DescriptorModel>,
    srcs: Seq<Option<Seq<char>>>,
    schemes: Seq<(Seq<char>, SchemeModel)>,
) -> Result<Seq<OutputModel>, PipeFault> {
    if has_missing(srcs) {
        Err(PipeFault::MissingSource { template: first_missing(srcs) })
    } else {
        pipeline_fold(Seq::empty(), ds, srcs, schemes, 0)
    }
}

/// How a pipeline fault shows up in the returned error value.
pub open spec fn fault_matches(f: PipeFault, e: BuildError, ds: Seq<DescriptorModel>) -> bool {
    match f {
        PipeFault::MissingSource { template } => e matches BuildError::Config { message }
            && message@ == "template listed in the configuration but its source file is missing: "@
            + ds[template].name,
        PipeFault::MarkerTag { template } => e matches BuildError::Config { message } && message@
            == "template uses a partial or set-delimiter tag, which is not supported: "@
            + ds[template].name,
        PipeFault::BadTemplate { template } => e matches BuildError::Config { message } && message@
            == "template source did not compile: "@ + ds[template].name,
        PipeFault::DotTag { template } => e matches BuildError::Render { template: name, .. }
            && name@ == ds[template].name,
        PipeFault::RenderFailed { template, .. } => e matches BuildError::Render {
            template: name,
            ..
        } && name@ == ds[template].name,
    }
}

} // verus!

use crate::scheme::store_view;
use crate::template::descriptors_view;

verus! {

/// The (directory, file name) pairs one descriptor owes: one per scheme,
/// in store order.
pub open spec fn pair_paths(
    d: DescriptorModel,
    schemes: Seq<(Seq<char>, SchemeModel)>,
) -> Seq<(Seq<char>, Seq<char>)> {
    Seq::new(
        schemes.len(),
        |s: int| (d.output, output_file_name_model(d.name, schemes[s].0, d.extension)),
    )
}

/// The (directory, file name) pairs the whole run owes: the cross product
/// of descriptors and schemes, descriptor-major.
pub open spec fn path_fold(
    acc: Seq<(Seq<char>, Seq<char>)>,
    ds: Seq<DescriptorModel>,
    schemes: Seq<(Seq<char>, SchemeModel)>,
) -> Seq<(Seq<char>, Seq<char>)>
    decreases ds.len(),
{
    if ds.len() == 0 {
        acc
    } else {
        path_fold(acc + pair_paths(ds[0], schemes), ds.drop_first(), schemes)
    }
}

/// The (directory, file name) projection of a run's outputs.
pub open spec fn outs_paths(os: Seq<OutputModel>) -> Seq<(Seq<char>, Seq<char>)> {
    os.map_values(|o: OutputModel| (o.dir, o.file_name))
}

/// The cross product yields one path per (descriptor, scheme) pair.
pub proof fn lemma_path_fold_len(
    acc: Seq<(Seq<char>, Seq<char>)>,
    ds: Seq<DescriptorModel>,
    schemes: Seq<(Seq<char>, SchemeModel)>,
)
    ensures
        path_fold(acc, ds, schemes).len() == acc.len() + ds.len() * schemes.len(),
    decreases ds.len(),
{
    if ds.len() > 0 {
        lemma_path_fold_len(acc + pair_paths(ds[0], schemes), ds.drop_first(), schemes);
        let d = ds.len() as int;
        let w = schemes.len() as int;
        assert((d - 1) * w == d * w - w) by (nonlinear_arith);
    }
}

/// The path at position `t * schemes.len() + s` of the cross product is the
/// one the pair of the `t`-th descriptor and the `s`-th scheme owes.
pub proof fn lemma_path_fold_index(
    acc: Seq<(Seq<char>, Seq<char>)>,
    ds: Seq<DescriptorModel>,
    schemes: Seq<(Seq<char>, SchemeModel)>,
    t: int,
    s: int,
)
    requires
        0 <= t < ds.len(),
        0 <= s < schemes.len(),
    ensures
        path_fold(acc, ds, schemes).len() == acc.len() + ds.len() * schemes.len(),
        path_fold(acc, ds, schemes)[acc.len() + t * schemes.len() + s] == (
            ds[t].output,
            output_file_name_model(ds[t].name, schemes[s].0, ds[t].extension),
        ),
    decreases t,
{
    lemma_path_fold_len(acc, ds, schemes);
    let acc2 = acc + pair_paths(ds[0], schemes);
    if t == 0 {
        lemma_path_fold_prefix(acc2, ds.drop_first(), schemes);
        assert(path_fold(acc, ds, schemes)[acc.len() + s] == acc2[acc.len() + s]);
        assert(acc2[acc.len() + s] == pair_paths(ds[0], schemes)[s]);
    } else {
        lemma_path_fold_index(acc2, ds.drop_first(), schemes, t - 1, s);
        assert(ds.drop_first()[t - 1] == ds[t]);
        let w = schemes.len() as int;
        assert((t - 1) * w == t * w - w) by (nonlinear_arith);
        assert(acc2.len() == acc.len() + w);
    }
}

/// Folding more descriptors onto an accumulator keeps the accumulator as a
/// prefix, unchanged.
proof fn lemma_path_fold_prefix(
    acc: Seq<(Seq<char>, Seq<char>)>,
    ds: Seq<DescriptorModel>,
    schemes: Seq<(Seq<char>, SchemeModel)>,
)
    ensures
        path_fold(acc, ds, schemes).len() >= acc.len(),
        forall|k: int|
            0 <= k < acc.len() ==> #[trigger] path_fold(acc, ds, schemes)[k] == acc[k],
    decreases ds.len(),
{
    if ds.len() > 0 {
        lemma_path_fold_prefix(acc + pair_paths(ds[0], schemes), ds.drop_first(), schemes);
    }
}

/// Renders every template against every scheme — descriptors in registry
/// order, schemes in store order — and returns one output per pair. Every
/// declared template must have a source before anything is rendered: the
/// first missing one aborts the run, whatever the engine would say about
/// the others. After that, the first template with a partial or
/// set-delimiter tag (which would make the engine's work depend on more
/// than the given text and bindings), engine-rejected template, template
/// naming the implicit iterator `.`, or failed pair aborts the run with
/// the matching error.
pub fn build_all(
    templates: &Vec<TemplateDescriptor>,
    sources: &Vec<Option<String>>,
    schemes: &Vec<(String, Scheme)>,
) -> (r: Result<Vec<OutputFile>, BuildError>)
    requires
        sources@.len() == templates@.len(),
        forall|k: int| 0 <= k < schemes@.len() ==> (#[trigger] schemes@[k]).1.wf(),
    ensures
        match r {
            Ok(outs) => pipeline_result(
                descriptors_view(templates@),
                sources_view(sources@),
                store_view(schemes@),
            ) == Ok::<_, PipeFault>(outputs_view(outs@)),
            Err(e) => pipeline_result(
                descriptors_view(templates@),
                sources_view(sources@),
                store_view(schemes@),
            ) matches Err(f) && fault_matches(f, e, descriptors_view(templates@)),
        },
        r matches Ok(outs) ==> outs_paths(outputs_view(outs@)) == path_fold(
            Seq::empty(),
            descriptors_view(templates@),
            store_view(schemes@),
        ),
        r matches Ok(outs) ==> forall|j: int|
            0 <= j < sources@.len() ==> (#[trigger] sources@[j]) is Some,
        has_missing(sources_view(sources@)) ==> (r matches Err(e) && fault_matches(
            PipeFault::MissingSource { template: first_missing(sources_view(sources@)) },
            e,
            descriptors_view(templates@),
        )),
        r matches Err(e) ==> (e matches BuildError::Config { .. } || e matches BuildError::Render {
            ..
        }),
{
    let ghost dsv = descriptors_view(templates@);
    let ghost srcsv = sources_view(sources@);
    let ghost sv = store_view(schemes@);
    let mut t0: usize = 0;
    while t0 < sources.len()
        invariant
            dsv == descriptors_view(templates@),
            srcsv == sources_view(sources@),
            sv == store_view(schemes@),
            dsv.len() == templates@.len(),
            srcsv.len() == sources@.len(),
            sources@.len() == templates@.len(),
            forall|j: int| 0 <= j < templates@.len() ==> #[trigger] dsv[j] == templates@[j]@,
            forall|j: int|
                0 <= j < sources@.len() ==> #[trigger] srcsv[j] == (match sources@[j] {
                    Some(x) => Some(x@),
                    None => None::<Seq<char>>,
                }),
            0 <= t0 <= sources@.len(),
            forall|j: int| 0 <= j < t0 ==> (#[trigger] srcsv[j]) is Some,
        decreases sources@.len() - t0,
    {
        if sources[t0].is_none() {
            let mut msg: String =
                "template listed in the configuration but its source file is missing: "
                .to_owned();
            msg.append(templates[t0].name.as_str());
            let e = BuildError::Config { message: msg };
            proof {
                assert(missing_first_at(srcsv, t0 as int));
                assert(has_missing(srcsv));
                let w = first_missing(srcsv);
                assert(missing_first_at(srcsv, w));
                lemma_missing_first_unique(srcsv, w, t0 as int);
                assert(pipeline_result(dsv, srcsv, sv) == Err::<Seq<OutputModel>, _>(
                    PipeFault::MissingSource { template: t0 as int },
                ));
                assert(fault_matches(PipeFault::MissingSource { template: t0 as int }, e, dsv));
            }
            return Err(e);
        }
        t0 = t0 + 1;
    }
    proof {
        assert(!has_missing(srcsv)) by {
            if has_missing(srcsv) {
                let w = choose|w: int| 0 <= w < srcsv.len() && (#[trigger] srcsv[w]) is None;
                assert(srcsv[w] is Some);
            }
        }
        assert forall|j: int| 0 <= j < sources@.len() implies (#[trigger] sources@[j]) is Some by {
            assert(srcsv[j] is Some);
        }
    }
    let mut outs: Vec<OutputFile> = Vec::new();
    let mut t: usize = 0;
    proof {
        assert(dsv.skip(0) =~= dsv);
        assert(srcsv.skip(0) =~= srcsv);
        assert(outputs_view(outs@) =~= Seq::<OutputModel>::empty());
        assert(outs_paths(outputs_view(outs@)) =~= Seq::<(Seq<char>, Seq<char>)>::empty());
    }
    while t < templates.len()
        invariant
            dsv == descriptors_view(templates@),
            srcsv == sources_view(sources@),
            sv == store_view(schemes@),
            dsv.len() == templates@.len(),
            srcsv.len() == sources@.len(),
            sv.len() == schemes@.len(),
            sources@.len() == templates@.len(),
            forall|j: int| 0 <= j < templates@.len() ==> #[trigger] dsv[j] == templates@[j]@,
            forall|j: int|
                0 <= j < sources@.len() ==> #[trigger] srcsv[j] == (match sources@[j] {
                    Some(x) => Some(x@),
                    None => None::<Seq<char>>,
                }),
            forall|j: int|
                0 <= j < schemes@.len() ==> #[trigger] sv[j] == (schemes@[j].0@, schemes@[j].1@),
            forall|k: int| 0 <= k < schemes@.len() ==> (#[trigger] schemes@[k]).1.wf(),
            0 <= t <= templates@.len(),
            forall|j: int| 0 <= j < sources@.len() ==> (#[trigger] sources@[j]) is Some,
            !has_missing(srcsv),
            path_fold(outs_paths(outputs_view(outs@)), dsv.skip(t as int), sv) == path_fold(
                Seq::empty(),
                dsv,
                sv,
            ),
            pipeline_fold(
                outputs_view(outs@),
                dsv.skip(t as int),
                srcsv.skip(t as int),
                sv,
                t as int,
            ) == pipeline_result(dsv, srcsv, sv),
        decreases templates@.len() - t,
    {
        proof {
            assert(dsv.skip(t as int)[0] == dsv[t as int]);
            assert(srcsv.skip(t as int)[0] == srcsv[t as int]);
            assert(dsv.skip(t as int).drop_first() =~= dsv.skip(t as int + 1));
            assert(srcsv.skip(t as int).drop_first() =~= srcsv.skip(t as int + 1));
        }
        let src = match &sources[t] {
            Some(s) => s,
            None => unreached(),
        };
        if !scan_marker_free(src.as_str()) {
            let mut msg: String =
                "template uses a partial or set-delimiter tag, which is not supported: "
                .to_owned();
            msg.append(templates[t].name.as_str());
            let e = BuildError::Config { message: msg };
            proof {
                assert(!marker_free(src@));
                assert(pipeline_result(dsv, srcsv, sv) == Err::<Seq<OutputModel>, _>(
                    PipeFault::MarkerTag { template: t as int },
                ));
                assert(fault_matches(PipeFault::MarkerTag { template: t as int }, e, dsv));
            }
            return Err(e);
        }
        let ct = match compile_template(src.as_str()) {
            Ok(c) => c,
            Err(_) => {
                let mut msg: String = "template source did not compile: ".to_owned();
                msg.append(templates[t].name.as_str());
                let e = BuildError::Config { message: msg };
                proof {
                    assert(marker_free(src@));
                    assert(!compiles_to_template(src@));
                    assert(pipeline_result(dsv, srcsv, sv) == Err::<Seq<OutputModel>, _>(
                        PipeFault::BadTemplate { template: t as int },
                    ));
                    assert(fault_matches(PipeFault::BadTemplate { template: t as int }, e, dsv));
                }
                return Err(e);
            },
        };
        if !scan_dot_tag_free(src.as_str()) {
            let mut msg: String =
                "template names the implicit iterator '.', which cannot be rendered from the scheme bindings: "
                .to_owned();
            msg.append(templates[t].name.as_str());
            let e = BuildError::Render { template: templates[t].name.clone(), message: msg };
            proof {
                assert(marker_free(src@));
                assert(compiles_to_template(src@));
                assert(!dot_tag_free(src@));
                assert(pipeline_fold(
                    outputs_view(outs@),
                    dsv.skip(t as int),
                    srcsv.skip(t as int),
                    sv,
                    t as int,
                ) == Err::<Seq<OutputModel>, _>(PipeFault::DotTag { template: t as int }));
                assert(pipeline_result(dsv, srcsv, sv) == Err::<Seq<OutputModel>, _>(
                    PipeFault::DotTag { template: t as int },
                ));
                assert(fault_matches(PipeFault::DotTag { template: t as int }, e, dsv));
            }
            return Err(e);
        }
        let ghost acc0 = outputs_view(outs@);
        let ghost paths0 = outs_paths(acc0);
        let mut s: usize = 0;
        proof {
            assert(sv.skip(0) =~= sv);
            assert(pair_paths(dsv[t as int], sv).take(0) =~= Seq::<(Seq<char>, Seq<char>)>::empty());
            assert(paths0 + pair_paths(dsv[t as int], sv).take(0) =~= paths0);
        }
        while s < schemes.len()
            invariant
                dsv == descriptors_view(templates@),
                srcsv == sources_view(sources@),
                sv == store_view(schemes@),
                dsv.len() == templates@.len(),
                srcsv.len() == sources@.len(),
                sv.len() == schemes@.len(),
                sources@.len() == templates@.len(),
                forall|j: int| 0 <= j < templates@.len() ==> #[trigger] dsv[j] == templates@[j]@,
                forall|j: int|
                    0 <= j < schemes@.len() ==> #[trigger] sv[j] == (
                        schemes@[j].0@,
                        schemes@[j].1@,
                    ),
                forall|k: int| 0 <= k < schemes@.len() ==> (#[trigger] schemes@[k]).1.wf(),
                0 <= t < templates@.len(),
                0 <= s <= schemes@.len(),
                srcsv[t as int] is Some,
                ct.source() == srcsv[t as int].unwrap(),
                marker_free(ct.source()),
                dot_tag_free(ct.source()),
                compiles_to_template(ct.source()),
                !has_missing(srcsv),
                acc0.len() == outs@.len() - s,
                pipeline_fold(
                    acc0,
                    dsv.skip(t as int),
                    srcsv.skip(t as int),
                    sv,
                    t as int,
                ) == pipeline_result(dsv, srcsv, sv),
                outs_paths(outputs_view(outs@)) == paths0 + pair_paths(dsv[t as int], sv).take(
                    s as int,
                ),
                template_fold(
                    outputs_view(outs@),
                    dsv[t as int],
                    ct.source(),
                    sv.skip(s as int),
                    t as int,
                    s as int,
                ) == template_fold(acc0, dsv[t as int], ct.source(), sv, t as int, 0),
            decreases schemes@.len() - s,
        {
            proof {
                assert(sv.skip(s as int)[0] == sv[s as int]);
                assert(sv.skip(s as int).drop_first() =~= sv.skip(s as int + 1));
            }
            let bindings = scheme_bindings(&schemes[s].1);
            let rendered = match render_compiled(&ct, &bindings) {
                Ok(x) => x,
                Err(m) => {
                    let e = BuildError::Render { template: templates[t].name.clone(), message: m };
                    proof {
                        assert(rendering(ct.source(), bindings_model(sv[s as int].1)) is None);
                        assert(template_fold(
                            acc0,
                            dsv[t as int],
                            ct.source(),
                            sv,
                            t as int,
                            0,
                        ) == Err::<Seq<OutputModel>, _>(PipeFault::RenderFailed {
                            template: t as int,
                            scheme: s as int,
                        }));
                        assert(srcsv.skip(t as int)[0] == srcsv[t as int]);
                        assert(dsv.skip(t as int)[0] == dsv[t as int]);
                        assert(srcsv[t as int] == Some(ct.source()));
                        assert(pipeline_fold(
                            acc0,
                            dsv.skip(t as int),
                            srcsv.skip(t as int),
                            sv,
                            t as int,
                        ) == Err::<Seq<OutputModel>, _>(PipeFault::RenderFailed {
                            template: t as int,
                            scheme: s as int,
                        }));
                        assert(pipeline_result(dsv, srcsv, sv) == Err::<Seq<OutputModel>, _>(
                            PipeFault::RenderFailed { template: t as int, scheme: s as int },
                        ));
                        assert(fault_matches(
                            PipeFault::RenderFailed { template: t as int, scheme: s as int },
                            e,
                            dsv,
                        ));
                    }
                    return Err(e);
                },
            };
            let name = output_file_name(
                templates[t].name.as_str(),
                schemes[s].0.as_str(),
                templates[t].extension.as_str(),
            );
            let of = OutputFile {
                dir: templates[t].output.clone(),
                file_name: name,
                contents: rendered,
            };
            let ghost prev = outputs_view(outs@);
            outs.push(of);
            proof {
                assert(outputs_view(outs@) =~= prev.push(of@));
                assert(pair_paths(dsv[t as int], sv).take(s as int + 1) =~= pair_paths(
                    dsv[t as int],
                    sv,
                ).take(s as int).push(pair_paths(dsv[t as int], sv)[s as int]));
                assert(outs_paths(prev.push(of@)) =~= outs_paths(prev).push(
                    (of@.dir, of@.file_name),
                ));
                assert((of@.dir, of@.file_name) == pair_paths(dsv[t as int], sv)[s as int]);
                assert(outs_paths(outputs_view(outs@)) =~= paths0 + pair_paths(
                    dsv[t as int],
                    sv,
                ).take(s as int + 1));
                assert(rendering(ct.source(), bindings_model(sv[s as int].1)) == Some(
                    rendered@,
                ));
                assert(of@ == pair_output(dsv[t as int], ct.source(), sv[s as int]));
                assert(outputs_view(outs@) =~= prev.push(
                    pair_output(dsv[t as int], ct.source(), sv[s as int]),
                ));
            }
            s = s + 1;
        }
        proof {
            assert(sv.skip(sv.len() as int) =~= Seq::<(Seq<char>, SchemeModel)>::empty());
            assert(pair_paths(dsv[t as int], sv).take(sv.len() as int) =~= pair_paths(
                dsv[t as int],
                sv,
            ));
            assert(template_fold(acc0, dsv[t as int], ct.source(), sv, t as int, 0) == Ok::<
                _,
                PipeFault,
            >(outputs_view(outs@)));
        }
        t = t + 1;
    }
    proof {
        assert(dsv.skip(dsv.len() as int) =~= Seq::<DescriptorModel>::empty());
        assert(srcsv.skip(srcsv.len() as int) =~= Seq::<Option<Seq<char>>>::empty());
    }
    Ok(outs)
}

} // verus!

verus! {

/// Every run owes exactly one output per (descriptor, scheme) pair: a
/// successful run's path list has length `N * M`, and the entry for the
/// `t`-th descriptor and `s`-th scheme is
/// `<output dir>/base16-<template>-<scheme>.<extension>`.
pub proof fn lemma_output_paths(
    ds: Seq<DescriptorModel>,
    schemes: Seq<(Seq<char>, SchemeModel)>,
    outs: Seq<(Seq<char>, Seq<char>)>,
)
    requires
        outs == path_fold(Seq::empty(), ds, schemes),
    ensures
        outs.len() == ds.len() * schemes.len(),
        forall|t: int, s: int|
            #![trigger ds[t], schemes[s]]
            0 <= t < ds.len() && 0 <= s < schemes.len() ==> outs[t * schemes.len() + s] == (
                ds[t].output,
                output_file_name_model(ds[t].name, schemes[s].0, ds[t].extension),
            ),
{
    lemma_path_fold_len(Seq::empty(), ds, schemes);
    assert forall|t: int, s: int|
        #![trigger ds[t], schemes[s]]
        0 <= t < ds.len() && 0 <= s < schemes.len() implies outs[t * schemes.len() + s] == (
        ds[t].output,
        output_file_name_model(ds[t].name, schemes[s].0, ds[t].extension),
    ) by {
        lemma_path_fold_index(Seq::empty(), ds, schemes, t, s);
    }
}

/// Rendering is deterministic: the run's outcome is a single value of the
/// inputs, so any two successful runs over the same descriptors, sources
/// and schemes produce identical outputs, byte for byte. (The contract of
/// `build_all` pins every run to `pipeline_result`; this lemma records
/// that the pinned value is one.)
pub proof fn lemma_rerun_identical(
    ds: Seq<DescriptorModel>,
    srcs: Seq<Option<Seq<char>>>,
    schemes: Seq<(Seq<char>, SchemeModel)>,
    r1: Seq<OutputModel>,
    r2: Seq<OutputModel>,
)
    requires
        pipeline_result(ds, srcs, schemes) == Ok::<_, PipeFault>(r1),
        pipeline_result(ds, srcs, schemes) == Ok::<_, PipeFault>(r2),
    ensures
        r1 == r2,
{
}

/// Decides whether an output file at `path` may be written: an existing
/// file is only ever touched when the run-wide overwrite flag is set, so
/// without the flag a run over an output directory fails before modifying
/// any already-present file.
pub fn overwrite_permits(overwrite: bool, already_exists: bool, path: &String) -> (r: Result<
    (),
    BuildError,
>)
    ensures
        r is Ok <==> (overwrite || !already_exists),
        r matches Err(e) ==> e matches BuildError::FileExists { path: p } && p@ == path@,
{
    if overwrite || !already_exists {
        Ok(())
    } else {
        Err(BuildError::FileExists { path: path.clone() })
    }
}

} // verus!
