use vstd::prelude::*;
use crate::error::BuildError;
use crate::scheme::lookup;
use crate::yaml::{parse_nested_map, yaml_nested_map};
use crate::text::pairs_view;

verus! {

/// How one template is rendered: the base name of its source file, the file
/// extension of its outputs, and the directory they are written to.
#[derive(Debug)]
pub struct TemplateDescriptor {
    pub name: String,
    pub extension: String,
    pub output: String,
}

/// The mathematical value of a template descriptor.
pub ghost struct DescriptorModel {
    pub name: Seq<char>,
    pub extension: Seq<char>,
    pub output: Seq<char>,
}

impl View for TemplateDescriptor {
    type V = DescriptorModel;

    open spec fn view(&self) -> DescriptorModel {
        DescriptorModel { name: self.name@, extension: self.extension@, output: self.output@ }
    }
}

/// The view of a descriptor vector.
pub open spec fn descriptors_view(s: Seq<TemplateDescriptor>) -> Seq<DescriptorModel> {
    s.map_values(|d: TemplateDescriptor| d@)
}

/// True when one config entry's fields name both `extension` and `output`.
pub open spec fn entry_fields_ok(fields: Seq<(Seq<char>, Seq<char>)>) -> bool {
    &&& lookup(fields, "extension"@) is Some
    &&& lookup(fields, "output"@) is Some
}

/// The descriptor one well-shaped config entry declares.
pub open spec fn entry_descriptor(entry: (Seq<char>, Seq<(Seq<char>, Seq<char>)>)) -> DescriptorModel {
    DescriptorModel {
        name: entry.0,
        extension: lookup(entry.1, "extension"@).unwrap(),
        output: lookup(entry.1, "output"@).unwrap(),
    }
}

/// Why the template configuration was rejected.
pub ghost enum ConfigFault {
    /// The document is not a two-level string mapping.
    BadDocument,
    /// The entry at this position lacks `extension` or `output`.
    BadEntry(int),
}

/// Folds the config entries into descriptors, in the entries' order,
/// stopping at the first ill-shaped entry.
pub open spec fn config_fold(
    acc: Seq<DescriptorModel>,
    entries: Seq<(Seq<char>, Seq<(Seq<char>, Seq<char>)>)>,
    base: int,
) -> Result<Seq<DescriptorModel>, int>
    decreases entries.len(),
{
    if entries.len() == 0 {
        Ok(acc)
    } else if !entry_fields_ok(entries[0].1) {
        Err(base)
    } else {
        config_fold(acc.push(entry_descriptor(entries[0])), entries.drop_first(), base + 1)
    }
}

/// What the whole configuration document declares: the descriptor list in
/// the parser's (name-sorted) order, or the first fault.
pub open spec fn config_result(content: Seq<char>) -> Result<Seq<DescriptorModel>, ConfigFault> {
    match yaml_nested_map(content) {
        None => Err(ConfigFault::BadDocument),
        Some(entries) => match config_fold(Seq::empty(), entries, 0) {
            Ok(ds) => Ok(ds),
            Err(i) => Err(ConfigFault::BadEntry(i)),
        },
    }
}

/// How a configuration fault shows up in the returned error value: an
/// ill-shaped entry is reported under its template name.
pub open spec fn config_error_matches(content: Seq<char>, f: ConfigFault, e: BuildError) -> bool {
    match f {
        ConfigFault::BadDocument => e matches BuildError::Config { .. },
        ConfigFault::BadEntry(i) => e matches BuildError::Config { message } && message@
            == "template config entry must name 'extension' and 'output': "@
            + yaml_nested_map(content).unwrap()[i].0,
    }
}

/// Parses the template configuration document: a mapping from template name
/// to a mapping that names `extension` and `output`. Descriptors come back
/// sorted by template name, so iteration over them is deterministic.
pub fn parse_config(content: &str) -> (r: Result<Vec<TemplateDescriptor>, BuildError>)
    ensures
        match r {
            Ok(ds) => config_result(content@) == Ok::<_, ConfigFault>(descriptors_view(ds@)),
            Err(e) => config_result(content@) matches Err(f) && config_error_matches(
                content@,
                f,
                e,
            ),
        },
{
    let ghost cv = yaml_nested_map(content@);
    let entries = match parse_nested_map(content) {
        Ok(v) => v,
        Err(m) => {
            let mut msg: String = "template configuration is not a mapping of templates: "
                .to_owned();
            msg.append(m.as_str());
            return Err(BuildError::Config { message: msg });
        },
    };
    let ghost ev = entries@.map_values(
        |e: (String, Vec<(String, String)>)| (e.0@, pairs_view(e.1@)),
    );
    let mut ds: Vec<TemplateDescriptor> = Vec::new();
    let mut i: usize = 0;
    proof {
        assert(ev.skip(0) =~= ev);
        assert(descriptors_view(ds@) =~= Seq::<DescriptorModel>::empty());
    }
    while i < entries.len()
        invariant
            cv == yaml_nested_map(content@),
            cv == Some(ev),
            ev.len() == entries@.len(),
            forall|j: int|
                0 <= j < entries@.len() ==> #[trigger] ev[j] == (
                    entries@[j].0@,
                    pairs_view(entries@[j].1@),
                ),
            0 <= i <= entries@.len(),
            config_fold(descriptors_view(ds@), ev.skip(i as int), i as int) == config_fold(
                Seq::empty(),
                ev,
                0,
            ),
        decreases entries@.len() - i,
    {
        let ghost entry = ev[i as int];
        proof {
            assert(ev.skip(i as int)[0] == entry);
            assert(ev.skip(i as int).drop_first() =~= ev.skip(i as int + 1));
        }
        let extension = match crate::scheme::find_value(&entries[i].1, "extension") {
            Some(v) => v,
            None => {
                let e = config_entry_error(&entries[i].0);
                proof {
                    assert(!entry_fields_ok(entry.1));
                    assert(config_result(content@) == Err::<Seq<DescriptorModel>, _>(
                        ConfigFault::BadEntry(i as int),
                    ));
                    assert(config_error_matches(content@, ConfigFault::BadEntry(i as int), e));
                }
                return Err(e);
            },
        };
        let output = match crate::scheme::find_value(&entries[i].1, "output") {
            Some(v) => v,
            None => {
                let e = config_entry_error(&entries[i].0);
                proof {
                    assert(!entry_fields_ok(entry.1));
                    assert(config_result(content@) == Err::<Seq<DescriptorModel>, _>(
                        ConfigFault::BadEntry(i as int),
                    ));
                    assert(config_error_matches(content@, ConfigFault::BadEntry(i as int), e));
                }
                return Err(e);
            },
        };
        let name = entries[i].0.clone();
        let d = TemplateDescriptor { name, extension, output };
        proof {
            assert(entry_fields_ok(entry.1));
            assert(d@ == entry_descriptor(entry));
        }
        let ghost prev = descriptors_view(ds@);
        ds.push(d);
        proof {
            assert(descriptors_view(ds@) =~= prev.push(d@));
        }
        i = i + 1;
    }
    proof {
        assert(ev.skip(ev.len() as int) =~= Seq::<(Seq<char>, Seq<(Seq<char>, Seq<char>)>)>::empty());
    }
    Ok(ds)
}

/// The error for a config entry that lacks a required field.
fn config_entry_error(name: &String) -> (r: BuildError)
    ensures
        r matches BuildError::Config { message } && message@
            == "template config entry must name 'extension' and 'output': "@ + name@,
{
    let mut msg: String = "template config entry must name 'extension' and 'output': ".to_owned();
    msg.append(name.as_str());
    BuildError::Config { message: msg }
}

} // verus!
