use fs_scan::csv::{check_file, save, CsvError, FileCheck, FILE_FIRST_LINE};
use fs_scan::histogram::handle_file;
use fs_scan::objects::build_result;

#[test]
fn header_is_the_documented_line() {
    assert_eq!(
        FILE_FIRST_LINE,
        "Path,Duration_ms,Files,Directories,Empty_files,Less_than_4K,4K_8K,8K_16K,16K_32K,32K_64K,64K_128K,128K_256K,256K_512K,512K_1M,1M_10M,10M_100M,100M_1G,1G"
    );
    assert_eq!(FILE_FIRST_LINE.split(',').count(), 18);
}

#[test]
fn an_empty_file_is_new() {
    assert_eq!(check_file(""), Ok(FileCheck::NewFile));
}

#[test]
fn a_file_with_the_header_is_valid() {
    assert_eq!(check_file(FILE_FIRST_LINE), Ok(FileCheck::HeaderValid));
    let with_break = format!("{}\n", FILE_FIRST_LINE);
    assert_eq!(check_file(&with_break), Ok(FileCheck::HeaderValid));
    let with_rows = format!("{}\n/a,1,2,3\n", FILE_FIRST_LINE);
    assert_eq!(check_file(&with_rows), Ok(FileCheck::HeaderValid));
}

#[test]
fn a_carriage_return_before_the_line_break_is_no_part_of_the_line() {
    let crlf = format!("{}\r\nrow\r\n", FILE_FIRST_LINE);
    assert_eq!(check_file(&crlf), Ok(FileCheck::HeaderValid));
    let lone = format!("{}\r", FILE_FIRST_LINE);
    assert_eq!(check_file(&lone), Err(CsvError::HeaderMismatch));
    let apart = format!("{}\rx\n", FILE_FIRST_LINE);
    assert_eq!(check_file(&apart), Err(CsvError::HeaderMismatch));
}

#[test]
fn another_first_line_is_refused() {
    assert_eq!(check_file("\n"), Err(CsvError::HeaderMismatch));
    assert_eq!(check_file("Path,Duration_ms\n"), Err(CsvError::HeaderMismatch));
    let longer = format!("{}x\n", FILE_FIRST_LINE);
    assert_eq!(check_file(&longer), Err(CsvError::HeaderMismatch));
    let altered = FILE_FIRST_LINE.replace("Files", "files");
    assert_eq!(check_file(&altered), Err(CsvError::HeaderMismatch));
    let second = format!("x\n{}\n", FILE_FIRST_LINE);
    assert_eq!(check_file(&second), Err(CsvError::HeaderMismatch));
    let wide = format!("{}\u{e9}\n", &FILE_FIRST_LINE[..151]);
    assert_eq!(check_file(&wide), Err(CsvError::HeaderMismatch));
}

#[test]
fn two_writes_give_one_header_and_two_rows() {
    let mut first = build_result("/one");
    handle_file(10, &mut first);
    let mut second = build_result("/two");
    handle_file(0, &mut second);
    handle_file(9_000, &mut second);

    let mut file = String::new();
    file.push_str(&save(&file, &first).unwrap());
    let after_first = file.clone();
    file.push_str(&save(&file, &second).unwrap());

    let lines: Vec<&str> = file.lines().collect();
    assert_eq!(lines.len(), 3);
    assert_eq!(lines[0], FILE_FIRST_LINE);
    assert_eq!(lines[1], "/one,0,1,0,0,1,0,0,0,0,0,0,0,0,0,0,0,0");
    assert_eq!(lines[2], "/two,0,2,0,1,0,0,1,0,0,0,0,0,0,0,0,0,0");
    assert!(file.starts_with(&after_first));
    assert_eq!(
        file,
        format!(
            "{}\n/one,0,1,0,0,1,0,0,0,0,0,0,0,0,0,0,0,0\n/two,0,2,0,1,0,0,1,0,0,0,0,0,0,0,0,0,0\n",
            FILE_FIRST_LINE
        )
    );
}

#[test]
fn a_third_write_after_the_header_was_altered_fails() {
    let res = build_result("/one");
    let mut file = String::new();
    file.push_str(&save(&file, &res).unwrap());
    file.push_str(&save(&file, &res).unwrap());
    let altered = file.replacen("Path", "Dir", 1);
    let before = altered.clone();
    assert_eq!(save(&altered, &res), Err(CsvError::HeaderMismatch));
    assert_eq!(altered, before);
}

#[test]
fn a_row_after_a_header_without_line_break_follows_at_once() {
    let res = build_result("/p");
    assert_eq!(
        save(FILE_FIRST_LINE, &res),
        Ok(String::from("/p,0,0,0,0,0,0,0,0,0,0,0,0,0,0,0,0,0\n"))
    );
}
