use ollama_client::gpu::GpuInfo;

fn info(name: &str, total_mb: u64, used_mb: u64) -> GpuInfo {
    GpuInfo { name: name.to_string(), total_mb, used_mb }
}

#[test]
fn report_with_all_members() {
    assert_eq!(
        GpuInfo::from_report(
            "{\"Name\":\"Radeon RX 7900\",\"Total\":25753026560,\"Used\":1073741824}"
        ),
        info("Radeon RX 7900", 24560, 1024)
    );
}

#[test]
fn bytes_are_cut_to_whole_mebibytes() {
    assert_eq!(GpuInfo::from_report("{\"Total\":1048575,\"Used\":1048576}"), info("", 0, 1));
    assert_eq!(GpuInfo::from_report("{\"Total\":2097151,\"Used\":2097152}"), info("", 1, 2));
    assert_eq!(
        GpuInfo::from_report("{\"Total\":18446744073709551615,\"Used\":0}"),
        info("", 17592186044415, 0)
    );
}

#[test]
fn members_of_another_type_stay_empty() {
    assert_eq!(
        GpuInfo::from_report("{\"Name\":7,\"Total\":\"8 GB\",\"Used\":-5}"),
        info("", 0, 0)
    );
    assert_eq!(GpuInfo::from_report("{\"Name\":\"x\",\"Total\":null,\"Used\":1.5e9}"), info("x", 0, 0));
    assert_eq!(GpuInfo::from_report("{}"), info("", 0, 0));
    assert_eq!(GpuInfo::from_report("[1,2]"), info("", 0, 0));
}

#[test]
fn a_report_that_is_no_json_gives_nothing() {
    assert_eq!(GpuInfo::from_report(""), info("", 0, 0));
    assert_eq!(GpuInfo::from_report("Get-Counter : not found"), info("", 0, 0));
    assert_eq!(GpuInfo::from_report("{\"Name\":\"x\""), info("", 0, 0));
}

#[test]
fn unknown_is_empty() {
    assert_eq!(GpuInfo::unknown(), info("", 0, 0));
}
