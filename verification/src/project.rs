//! Project scaffold documents.
//!
//! A project is described by one SPF document: its name, a format
//! version, a creation timestamp, the processors generated into it, and
//! which processor is the default. The host serializes the document to
//! JSON on disk and parses it back; the rules for building and updating
//! the document live here and are verified. Timestamps are produced by
//! the host's clock and passed in as strings.

use vstd::prelude::*;

use vstd::string::StringExecFns;

verus! {

/// The parameters of one processor to scaffold.
#[derive(Debug)]
pub struct ProcessorConfig {
    pub name: String,
    pub total_bits: u32,
    pub mantissa_bits: u32,
    pub exponent_bits: u32,
    pub data_stack_size: u32,
    pub instruction_stack_size: u32,
    pub input_ports: u32,
    pub output_ports: u32,
    pub gain: u32,
}

/// Where the newly created project's SPF document was placed.
#[derive(Debug)]
pub struct ProjectResult {
    pub spf_path: String,
}

/// One processor recorded in an SPF document: the configuration it was
/// generated from, the folder it lives in (named after it), and when it
/// was added.
#[derive(Debug)]
pub struct ProcessorEntry {
    pub name: String,
    pub total_bits: u32,
    pub mantissa_bits: u32,
    pub exponent_bits: u32,
    pub data_stack_size: u32,
    pub instruction_stack_size: u32,
    pub input_ports: u32,
    pub output_ports: u32,
    pub gain: u32,
    pub relative_path: String,
    pub created: String,
}

/// An SPF project document.
#[derive(Debug)]
pub struct SpfDocument {
    pub project_name: String,
    pub version: String,
    pub created: String,
    pub processors: Vec<ProcessorEntry>,
    pub default_processor: Option<String>,
}

/// Whether `entry` records exactly `config`, added under its own name at
/// time `created`.
pub open spec fn entry_records(entry: ProcessorEntry, config: ProcessorConfig, created: String) -> bool {
    &&& entry.name == config.name
    &&& entry.total_bits == config.total_bits
    &&& entry.mantissa_bits == config.mantissa_bits
    &&& entry.exponent_bits == config.exponent_bits
    &&& entry.data_stack_size == config.data_stack_size
    &&& entry.instruction_stack_size == config.instruction_stack_size
    &&& entry.input_ports == config.input_ports
    &&& entry.output_ports == config.output_ports
    &&& entry.gain == config.gain
    &&& entry.relative_path == config.name
    &&& entry.created == created
}

/// A fresh project document: format version `1.0.0`, no processors, no
/// default.
pub fn new_spf_document(project_name: String, created: String) -> (r: SpfDocument)
    ensures
        r.project_name == project_name,
        r.version@ == "1.0.0"@,
        r.created == created,
        r.processors@.len() == 0,
        r.default_processor is None,
{
    SpfDocument {
        project_name,
        version: String::from_str("1.0.0"),
        created,
        processors: Vec::new(),
        default_processor: None,
    }
}

/// Records one generated processor in the document: the entry is
/// appended to the processor list, and it becomes the default exactly
/// when the document had none yet. Nothing else changes.
pub fn add_processor(doc: &mut SpfDocument, config: &ProcessorConfig, created: String)
    ensures
        final(doc).processors@.len() == old(doc).processors@.len() + 1,
        final(doc).processors@.drop_last() == old(doc).processors@,
        entry_records(final(doc).processors@.last(), *config, created),
        old(doc).default_processor is None ==> final(doc).default_processor == Some(config.name),
        old(doc).default_processor is Some ==> final(doc).default_processor == old(
            doc,
        ).default_processor,
        final(doc).project_name == old(doc).project_name,
        final(doc).version == old(doc).version,
        final(doc).created == old(doc).created,
{
    let entry = ProcessorEntry {
        name: config.name.clone(),
        total_bits: config.total_bits,
        mantissa_bits: config.mantissa_bits,
        exponent_bits: config.exponent_bits,
        data_stack_size: config.data_stack_size,
        instruction_stack_size: config.instruction_stack_size,
        input_ports: config.input_ports,
        output_ports: config.output_ports,
        gain: config.gain,
        relative_path: config.name.clone(),
        created,
    };
    let ghost before = doc.processors@;
    doc.processors.push(entry);
    proof {
        assert(doc.processors@.drop_last() =~= before);
    }
    if doc.default_processor.is_none() {
        doc.default_processor = Some(config.name.clone());
    }
}

/// The message reported after a processor's structure was generated.
pub fn processor_success_message(name: &str) -> (r: String)
    ensures
        r@ == "Processor "@ + name@ + " structure created successfully"@,
{
    let mut out = String::from_str("Processor ");
    out.append(name);
    out.append(" structure created successfully");
    out
}

} // verus!
