use mcl_rs::MclEnvBuilder;

#[test]
fn discovery() {
    let env = MclEnvBuilder::new().initialize();

    let ndevs = env.get_ndev();

    println!("Found {} devives", ndevs);

    for i in 0..ndevs {
        let dev = env.get_dev(i);

        println!("{:?}", dev);
    }
}

#[test]
fn recorded_devices_are_reported() {
    let mut env = MclEnvBuilder::new().num_workers(2).initialize();
    assert_eq!(env.get_ndev(), 0);
    let added = env.record_device(mcl_rs::DevInfo {
        id: 7,
        name: "cpu0".to_string(),
        vendor: "acme".to_string(),
        class: 1,
        status: 0,
        mem_size: 1024,
        pes: 8,
        ndims: 2,
        wgsize: 64,
        wisize: vec![16, 4],
    });
    assert!(added);
    assert_eq!(env.get_ndev(), 1);
    let dev = env.get_dev(0);
    assert_eq!(dev.id, 7);
    assert_eq!(dev.name, "cpu0");
    assert_eq!(dev.vendor, "acme");
    assert_eq!(dev.pes, 8);
    assert_eq!(dev.wisize, vec![16, 4]);
}
