use model_surgery::hardware::sensor_priority;

#[test]
fn ranks_cpu_sensor_labels() {
    assert_eq!(sensor_priority("CPU Package"), 2);
    assert_eq!(sensor_priority("coretemp Package id 0"), 2);
    assert_eq!(sensor_priority("CPU Core 0"), 1);
    assert_eq!(sensor_priority("AMD Processor"), 1);
    assert_eq!(sensor_priority("GPU"), 0);
    assert_eq!(sensor_priority("nvme Composite"), 0);
}
