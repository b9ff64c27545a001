# rustygrab

A packet analyzer: it reads classic `.pcap` capture files or captures live
traffic, decodes each Ethernet frame layer by layer (ARP, IPv4, IPv6, TCP,
UDP, ICMP, ICMPv6) and shows one summary line per packet in a terminal
interface.

- `src/` is the library, verified with Verus: the decoders (`protocols/`),
  packets and their summaries (`model/`), the pcap file format and the
  decisions of a live capture (`source/`), and the reading of commands and
  the placement of output in the terminal (`ui/`).
- `app/` is the program around it: the terminal interface, file reading
  and live capture through libpcap.
- `tests/` runs the library on concrete frames and capture files.
