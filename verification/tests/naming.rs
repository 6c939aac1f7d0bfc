use permute::files::{generate_file_name, output_run_dir, output_run_max, output_run_number};
use permute::random_processors::utils::{format_hz_usize, get_filename};
use permute::text::{i64_to_string, str_equal, u64_to_string};
use std::path::Path;

fn std_file_name(file: &str, output: &str, count: usize, as_wav: bool) -> String {
    let p = Path::new(file);
    let stem = p.file_stem().unwrap_or_default().to_str().unwrap_or("");
    let ext = if as_wav { "wav" } else { p.extension().unwrap_or_default().to_str().unwrap_or("") };
    let mut dir = Path::new(output).to_path_buf();
    dir.push([stem, &count.to_string(), ".", ext].concat());
    dir.into_os_string().into_string().unwrap()
}

#[test]
fn output_file_names() {
    assert_eq!(generate_file_name("/in/drum.wav".to_string(), "/out".to_string(), 1, false), "/out/drum1.wav");
    assert_eq!(generate_file_name("/in/drum.aiff".to_string(), "/out".to_string(), 2, true), "/out/drum2.wav");
    assert_eq!(generate_file_name("/in/drum.aiff".to_string(), "/out/".to_string(), 3, false), "/out/drum3.aiff");
    assert_eq!(
        generate_file_name("/in/archive.tar.gz".to_string(), "/out".to_string(), 4, false),
        "/out/archive.tar4.gz"
    );
    assert_eq!(generate_file_name("/in/.hidden".to_string(), "/o".to_string(), 1, false), "/o/.hidden1.");
    assert_eq!(generate_file_name("/in/..".to_string(), "/o".to_string(), 12, false), "/o/12.");
    assert_eq!(generate_file_name("/in/foo.txt/.".to_string(), "/o".to_string(), 5, false), "/o/foo5.txt");
}

#[test]
fn output_file_names_agree_with_std_paths() {
    let files = [
        "a.wav", "/x/y/z.flac", "dir/", "dir/name.", "dir/name./", "./", ".", "..", "/", "", "a/./b.c",
        "a//b.c//", "/in/.hidden", "/in/.a.b", "a/../b.mp3", "weird name with spaces.wav", "no_ext",
        "ünïcødé/ファイル.wav", "x.", "..x", "a/b/c.d.e.f",
    ];
    let outputs = ["/out", "/out/", "", "rel/dir", "/"];
    for f in files {
        for o in outputs {
            for (count, wav) in [(1usize, false), (10, true), (123, false)] {
                assert_eq!(
                    generate_file_name(f.to_string(), o.to_string(), count, wav),
                    std_file_name(f, o, count, wav),
                    "file {:?} output {:?}",
                    f,
                    o
                );
            }
        }
    }
}

#[test]
fn run_numbers_agree_with_std_parse() {
    let names = [
        "permutes1", "permutes12", "xpermutes7", "permutes", "permutes-3", "permutes+4", "permutes12a",
        "other", "permutes99999999999", "permutes2147483647", "permutes2147483648", "permutes-2147483648",
        "permutes-2147483649", "permutes+", "permutes-", "permutespermutes3", "PERMUTES5", "",
        "permutes007",
    ];
    for n in names {
        let expected = match n.find("permutes") {
            None => 0,
            Some(i) => n.get((i + 8)..n.len()).unwrap_or("").parse::<i32>().unwrap_or(0),
        };
        assert_eq!(output_run_number(n), expected, "{}", n);
    }
    assert_eq!(output_run_number("permutes12"), 12);
    assert_eq!(output_run_number("permutes-3"), -3);
    assert_eq!(output_run_number("permutes2147483648"), 0);
}

#[test]
fn largest_run_and_next_run_directory() {
    let dirs = vec!["permutes1".to_string(), "permutes3".to_string(), "samples".to_string()];
    assert_eq!(output_run_max(&dirs), 3);
    assert_eq!(output_run_max(&vec![]), 0);
    assert_eq!(output_run_max(&vec!["permutes-5".to_string()]), 0);
    assert_eq!(output_run_dir("/out", 3), "/out/permutes4");
    assert_eq!(output_run_dir("/out/", 0), "/out/permutes1");
    assert_eq!(output_run_dir("", 9), "permutes10");
    let next = output_run_dir("/out", output_run_max(&dirs));
    let name = next.rsplit('/').next().unwrap();
    assert!(dirs.iter().all(|d| output_run_number(d) < output_run_number(name)));
}

#[test]
fn decimal_rendering() {
    assert_eq!(u64_to_string(0), "0");
    assert_eq!(u64_to_string(1234), "1234");
    assert_eq!(u64_to_string(u64::MAX), u64::MAX.to_string());
    assert_eq!(i64_to_string(-5), "-5");
    assert_eq!(i64_to_string(i64::MIN), i64::MIN.to_string());
    assert_eq!(i64_to_string(i64::MAX), i64::MAX.to_string());
}

#[test]
fn string_comparison() {
    assert!(str_equal("abc", "abc"));
    assert!(!str_equal("abc", "abd"));
    assert!(!str_equal("abc", "ab"));
    assert!(str_equal("", ""));
}

#[test]
fn attribute_text() {
    assert_eq!(format_hz_usize(44100), "44100 hz");
    assert_eq!(format_hz_usize(0), "0 hz");
    assert_eq!(get_filename("/a/b/c.wav"), "c.wav");
    assert_eq!(get_filename("c.wav"), "c.wav");
    assert_eq!(get_filename("/a/b/"), "");
    assert_eq!(get_filename(""), "");
}

#[test]
fn each_output_number_gets_its_own_path() {
    let mut names: Vec<String> = (1..=120)
        .map(|i| generate_file_name("/in/take1.wav".to_string(), "/out".to_string(), i, false))
        .collect();
    assert_eq!(names[0], "/out/take11.wav");
    assert_eq!(names[10], "/out/take111.wav");
    names.sort();
    names.dedup();
    assert_eq!(names.len(), 120);
}

fn std_numbered_output(output: &str, count: usize) -> String {
    let path = Path::new(output);
    let file_stem = path.file_stem().unwrap_or_default().to_str().unwrap_or("");
    let extension = path.extension().unwrap_or_default().to_str().unwrap_or("");
    let new_filename = [file_stem, &count.to_string(), ".", extension].concat();
    path.with_file_name(new_filename).into_os_string().into_string().unwrap()
}

#[test]
fn first_tool_output_names() {
    assert_eq!(permute::prototype::generate_file_name("/renders/take.wav".to_string(), 3), "/renders/take3.wav");
    assert_eq!(permute::prototype::generate_file_name("take.wav".to_string(), 12), "take12.wav");
    assert_eq!(permute::prototype::generate_file_name("/".to_string(), 1), "/1.");
}

#[test]
fn first_tool_output_names_agree_with_std_paths() {
    let outputs = [
        "a.wav", "/x/y/z.flac", "dir/", "dir/name.", "dir/name./", "./", ".", "..", "/", "", "a/./b.c",
        "a//b.c//", "/in/.hidden", "/in/.a.b", "a/../b.mp3", "a/..", "./b.wav", "./.", "//x.y", "/./a",
        "a/b.wav/.", "a/b/./.", ".a/b", "..x/y.z", "x/.", "weird name.wav", "ünïcødé/ファイル.wav", "a/b/c.d.e",
    ];
    for o in outputs {
        for count in [1usize, 7, 42, 1000] {
            assert_eq!(permute::prototype::generate_file_name(o.to_string(), count), std_numbered_output(o, count), "{} {}", o, count);
        }
    }
}
