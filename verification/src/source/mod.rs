pub mod live;
pub mod pcap_file;
