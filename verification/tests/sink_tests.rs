use ematch_bench::record::BenchRecord;
use ematch_bench::sink::{frame_row, header, Recorder};

fn record(pattern: &str, time: &str) -> BenchRecord {
    BenchRecord {
        benchmark: "math".to_string(),
        node_size: 10_023,
        class_size: 512,
        algo: "GenericJoin".to_string(),
        pattern: pattern.to_string(),
        time: time.to_string(),
        result_size: 77,
        repeat_time: 1,
    }
}

#[test]
fn header_names_the_eight_columns_in_order() {
    assert_eq!(
        header(),
        vec![
            "benchmark",
            "node_size",
            "class_size",
            "algo",
            "pattern",
            "time",
            "result_size",
            "repeat_time"
        ]
    );
}

#[test]
fn fields_follow_the_columns() {
    assert_eq!(
        record("(* ?a 1)", "1234").fields(),
        vec!["math", "10023", "512", "GenericJoin", "(* ?a 1)", "1234", "77", "1"]
    );
}

#[test]
fn first_row_goes_out_behind_the_header_line() {
    let mut recorder = Recorder::new();
    assert!(!recorder.has_started());
    let bytes = recorder.append(&record("(* ?a 1)", "1234")).unwrap();
    assert_eq!(
        String::from_utf8(bytes).unwrap(),
        "benchmark,node_size,class_size,algo,pattern,time,result_size,repeat_time\n\
         math,10023,512,GenericJoin,(* ?a 1),1234,77,1\n"
    );
    assert!(recorder.has_started());
}

#[test]
fn later_rows_go_out_alone() {
    let mut recorder = Recorder::new();
    recorder.append(&record("(* ?a 1)", "1234")).unwrap();
    let bytes = recorder.append(&record("(* ?a 0)", "-60000000")).unwrap();
    assert_eq!(
        String::from_utf8(bytes).unwrap(),
        "math,10023,512,GenericJoin,(* ?a 0),-60000000,77,1\n"
    );
    assert!(recorder.has_started());
}

#[test]
fn a_field_with_a_comma_or_a_quote_is_quoted() {
    let mut recorder = Recorder::new();
    recorder.append(&record("x", "1")).unwrap();
    let bytes = recorder.append(&record("(f ?a, \"b\")", "1")).unwrap();
    assert_eq!(
        String::from_utf8(bytes).unwrap(),
        "math,10023,512,GenericJoin,\"(f ?a, \"\"b\"\")\",1,77,1\n"
    );
}

#[test]
fn frame_row_puts_the_header_line_first_once() {
    let head = b"h\n".to_vec();
    let line = b"r\n".to_vec();
    assert_eq!(frame_row(false, Some(head.clone()), Some(line.clone())), Some(b"h\nr\n".to_vec()));
    assert_eq!(frame_row(true, Some(head.clone()), Some(line.clone())), Some(line.clone()));
    assert_eq!(frame_row(true, None, Some(line.clone())), Some(line.clone()));
    assert_eq!(frame_row(false, None, Some(line)), None);
    assert_eq!(frame_row(false, Some(head.clone()), None), None);
    assert_eq!(frame_row(true, Some(head), None), None);
}

#[test]
fn written_rows_read_back_as_the_fields() {
    let mut recorder = Recorder::new();
    let mut sink: Vec<u8> = Vec::new();
    let rows = [record("(+ ?a (+ ?b ?c))", "15"), record("a,b", "-0"), record("", "3")];
    for row in rows.iter() {
        sink.extend(recorder.append(row).unwrap());
    }
    let mut reader = csv::Reader::from_reader(sink.as_slice());
    let names: Vec<String> = reader.headers().unwrap().iter().map(|f| f.to_string()).collect();
    assert_eq!(names, header());
    let mut read = 0;
    for (line, row) in reader.records().zip(rows.iter()) {
        let fields: Vec<String> = line.unwrap().iter().map(|f| f.to_string()).collect();
        assert_eq!(fields, row.fields());
        read += 1;
    }
    assert_eq!(read, 3);
}
