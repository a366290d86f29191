use polaris_core::project::{
    add_processor, new_spf_document, processor_success_message, ProcessorConfig,
};

fn config(name: &str) -> ProcessorConfig {
    ProcessorConfig {
        name: name.to_string(),
        total_bits: 32,
        mantissa_bits: 23,
        exponent_bits: 8,
        data_stack_size: 64,
        instruction_stack_size: 128,
        input_ports: 2,
        output_ports: 1,
        gain: 1,
    }
}

#[test]
fn a_fresh_document_is_empty() {
    let doc = new_spf_document("demo".to_string(), "2024-01-01T00:00:00+00:00".to_string());
    assert_eq!(doc.project_name, "demo");
    assert_eq!(doc.version, "1.0.0");
    assert_eq!(doc.created, "2024-01-01T00:00:00+00:00");
    assert!(doc.processors.is_empty());
    assert!(doc.default_processor.is_none());
}

#[test]
fn the_first_processor_becomes_the_default() {
    let mut doc = new_spf_document("demo".to_string(), "t0".to_string());
    add_processor(&mut doc, &config("alu"), "t1".to_string());
    assert_eq!(doc.processors.len(), 1);
    let entry = &doc.processors[0];
    assert_eq!(entry.name, "alu");
    assert_eq!(entry.relative_path, "alu");
    assert_eq!(entry.created, "t1");
    assert_eq!(entry.total_bits, 32);
    assert_eq!(entry.mantissa_bits, 23);
    assert_eq!(entry.exponent_bits, 8);
    assert_eq!(entry.data_stack_size, 64);
    assert_eq!(entry.instruction_stack_size, 128);
    assert_eq!(entry.input_ports, 2);
    assert_eq!(entry.output_ports, 1);
    assert_eq!(entry.gain, 1);
    assert_eq!(doc.default_processor.as_deref(), Some("alu"));
}

#[test]
fn a_second_processor_keeps_the_default() {
    let mut doc = new_spf_document("demo".to_string(), "t0".to_string());
    add_processor(&mut doc, &config("first"), "t1".to_string());
    add_processor(&mut doc, &config("second"), "t2".to_string());
    assert_eq!(doc.processors.len(), 2);
    assert_eq!(doc.processors[0].name, "first");
    assert_eq!(doc.processors[1].name, "second");
    assert_eq!(doc.default_processor.as_deref(), Some("first"));
}

#[test]
fn the_success_message_names_the_processor() {
    assert_eq!(
        processor_success_message("alu"),
        "Processor alu structure created successfully"
    );
}
