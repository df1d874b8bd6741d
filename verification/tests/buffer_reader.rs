use rsnano_node::buffer_reader::{ReadError, VecBufferReader};

#[test]
fn empty_vec() {
    let mut reader = VecBufferReader::new(Vec::new());
    let mut buffer = vec![0u8; 3];
    let result = reader.read(&mut buffer, 1);
    assert!(result.is_err());
    assert_eq!(result, Err(ReadError::NoMoreData));
}

#[test]
fn read_one_byte() {
    let mut reader = VecBufferReader::new(vec![42]);
    let mut buffer = vec![0u8; 1];
    let result = reader.read(&mut buffer, 1);
    assert!(result.is_ok());
    assert_eq!(buffer[0], 42);
}

#[test]
fn multiple_reads() {
    let mut reader = VecBufferReader::new(vec![1, 2, 3, 4, 5]);
    let mut buffer = vec![0u8; 2];
    reader.read(&mut buffer, 1).unwrap();
    assert_eq!(buffer[0], 1);

    reader.read(&mut buffer, 2).unwrap();
    assert_eq!(buffer[0], 2);
    assert_eq!(buffer[1], 3);

    reader.read(&mut buffer, 2).unwrap();
    assert_eq!(buffer[0], 4);
    assert_eq!(buffer[1], 5);

    assert!(reader.read(&mut buffer, 1).is_err());
}
