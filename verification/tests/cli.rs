use permute::cli::{cli_files, cli_processor_count, cli_processor_pool, processor_attribute_lines};
use permute::display_node::get_processor_display_name;
use permute::process::{Permutation, PermutationProcessor, PermuteNodeName, ProcessorAttribute};

fn attribute(key: &str, value: &str) -> ProcessorAttribute {
    ProcessorAttribute { key: key.to_string(), value: value.to_string() }
}

fn permutation(output: &str, processors: Vec<PermutationProcessor>) -> Permutation {
    Permutation {
        file: "/in/a.wav".to_string(),
        permutation_index: 1,
        output: output.to_string(),
        processor_pool: Vec::new(),
        processors,
        original_sample_rate: 48000,
        node_index: 0,
        files: Vec::new(),
    }
}

// The report as the command line tool prints it, line by line.
fn printed(perms: &[Permutation]) -> Vec<String> {
    let mut lines = vec!["\nProcessor Attributes:".to_string()];
    for permutation in perms {
        lines.push(format!("\nFile: {}", permutation.output));
        lines.push("┌─────┬────────────────────┬───────────────────────────┐".to_string());
        lines.push("│ Node│ Processor          │ Attributes                │".to_string());
        lines.push("├─────┼────────────────────┼───────────────────────────┤".to_string());
        for (i, processor) in permutation.processors.iter().enumerate() {
            let processor_name = get_processor_display_name(processor.name);
            let mut first_attr = true;
            for attr in &processor.attributes {
                if first_attr {
                    lines.push(format!("│ {:3} │ {:18} │ {:25} │", i, processor_name, format!("{}: {}", attr.key, attr.value)));
                    first_attr = false;
                } else {
                    lines.push(format!("│ {:3} │ {:18} │ {:25} │", "", "", format!("{}: {}", attr.key, attr.value)));
                }
            }
            if first_attr {
                lines.push(format!("│ {:3} │ {:18} │ {:25} │", i, processor_name, ""));
            }
            if i < permutation.processors.len() - 1 {
                lines.push("├─────┼────────────────────┼───────────────────────────┤".to_string());
            }
        }
        lines.push("└─────┴────────────────────┴───────────────────────────┘".to_string());
    }
    lines
}

#[test]
fn default_pool_when_no_processor_is_named() {
    let pool = cli_processor_pool("").unwrap();
    assert_eq!(pool.len(), 18);
    assert_eq!(pool[0], PermuteNodeName::GranularTimeStretch);
    assert_eq!(pool[17], PermuteNodeName::CrossFilter);
    assert!(!pool.contains(&PermuteNodeName::Normalise));
}

#[test]
fn a_named_processor_is_the_whole_pool() {
    assert_eq!(cli_processor_pool("Reverse"), Ok(vec![PermuteNodeName::Reverse]));
    assert_eq!(cli_processor_pool("Half speed"), Ok(vec![PermuteNodeName::HalfSpeed]));
    assert_eq!(cli_processor_pool("Nope"), Err("Nope not found".to_string()));
}

#[test]
fn processor_count_zero_means_random() {
    assert_eq!(cli_processor_count(0), None);
    assert_eq!(cli_processor_count(3), Some(3));
    assert_eq!(cli_processor_count(-1), Some(-1));
}

#[test]
fn files_start_with_the_processed_file() {
    assert_eq!(
        cli_files("a.wav".to_string(), vec!["b.wav".to_string(), "c.wav".to_string()]),
        vec!["a.wav".to_string(), "b.wav".to_string(), "c.wav".to_string()]
    );
    assert_eq!(cli_files("a.wav".to_string(), Vec::new()), vec!["a.wav".to_string()]);
}

#[test]
fn attribute_report_matches_the_printed_table() {
    let perms = vec![
        permutation(
            "/out/a_1.wav",
            vec![
                PermutationProcessor {
                    name: PermuteNodeName::GranularTimeStretch,
                    attributes: vec![attribute("Grain", "50.0 ms"), attribute("Stretch Factor", "2X")],
                },
                PermutationProcessor { name: PermuteNodeName::Reverse, attributes: Vec::new() },
                PermutationProcessor {
                    name: PermuteNodeName::Filter,
                    attributes: vec![attribute("Type", "a very long attribute value that overflows the column")],
                },
            ],
        ),
        permutation("/out/ü.wav", vec![PermutationProcessor { name: PermuteNodeName::Fuzz, attributes: vec![attribute("Gäin", "3")] }]),
        permutation("/out/empty.wav", Vec::new()),
    ];
    assert_eq!(processor_attribute_lines(&perms), printed(&perms));
    assert_eq!(processor_attribute_lines(&Vec::new()), vec!["\nProcessor Attributes:".to_string()]);
}

#[test]
fn attribute_rows_are_padded_to_the_columns() {
    let perms = vec![permutation(
        "x.wav",
        vec![PermutationProcessor { name: PermuteNodeName::Fuzz, attributes: vec![attribute("Gain", "2")] }],
    )];
    let lines = processor_attribute_lines(&perms);
    assert_eq!(lines[5], "│   0 │ Fuzz               │ Gain: 2                   │");
}
